//! Decoded frames kept for reuse, found by identifier or by nearest later time.
use vstd::prelude::*;

verus! {

/// Source of frame cache identifiers: each call hands out the next value,
/// up to and including `usize::MAX`, after which it is used up.
///
/// Shared use across threads goes through a lock around one source, so the
/// values stay distinct and increasing in the order they were issued.
pub struct FrameCacheIds {
    next: usize,
    exhausted: bool,
}

impl View for FrameCacheIds {
    /// The next identifier, and whether every identifier has been issued.
    type V = (usize, bool);

    closed spec fn view(&self) -> (usize, bool) {
        (self.next, self.exhausted)
    }
}

/// One call of `get_frame_cache_id`: `before` and `after` are the source's
/// state around it and `r` what it returned.
pub open spec fn id_step(before: (usize, bool), r: Option<usize>, after: (usize, bool)) -> bool {
    if before.1 {
        r is None && after == before
    } else if before.0 < usize::MAX {
        r == Some(before.0) && after == ((before.0 + 1) as usize, false)
    } else {
        r == Some(before.0) && after.1
    }
}

impl FrameCacheIds {
    /// A fresh source whose first identifier is 1.
    pub fn new() -> (r: Self)
        ensures
            r@ == (1usize, false),
    {
        FrameCacheIds { next: 1, exhausted: false }
    }

    /// A source whose first identifier is `first`, for numbering that goes on
    /// after identifiers issued elsewhere.
    pub fn starting_at(first: usize) -> (r: Self)
        ensures
            r@ == (first, false),
    {
        FrameCacheIds { next: first, exhausted: false }
    }
}

/// Hands out the next identifier of `ids`, or `None` once `usize::MAX` has
/// been issued.
pub fn get_frame_cache_id(ids: &mut FrameCacheIds) -> (r: Option<usize>)
    ensures
        id_step(old(ids)@, r, final(ids)@),
        r is None <==> old(ids)@.1,
        !old(ids)@.1 ==> r == Some(old(ids)@.0),
{
    if ids.exhausted {
        None
    } else {
        let id = ids.next;
        if ids.next == usize::MAX {
            ids.exhausted = true;
        } else {
            ids.next = ids.next + 1;
        }
        Some(id)
    }
}

/// `states[i]` is a source's state before the i-th call of
/// `get_frame_cache_id` and `results[i]` what that call returned.
pub open spec fn is_issue_run(states: Seq<(usize, bool)>, results: Seq<Option<usize>>) -> bool {
    &&& states.len() == results.len() + 1
    &&& forall|i: int| 0 <= i < results.len() ==> id_step(#[trigger] states[i], results[i], states[i + 1])
}

proof fn lemma_run_position(states: Seq<(usize, bool)>, results: Seq<Option<usize>>, i: int)
    requires
        is_issue_run(states, results),
        0 <= i < states.len(),
    ensures
        states[0].1 ==> states[i].1,
        !states[0].1 ==> (!states[i].1 && states[i].0 == states[0].0 + i)
            || (states[i].1 && states[0].0 + i > usize::MAX),
    decreases i,
{
    if i > 0 {
        lemma_run_position(states, results, i - 1);
        assert(id_step(states[i - 1], results[i - 1], states[i]));
    }
}

/// Each call of a run hands out its start value plus its place in the run,
/// while that stays within `usize`, and nothing after.
pub proof fn lemma_ids_in_issue_order(states: Seq<(usize, bool)>, results: Seq<Option<usize>>)
    requires
        is_issue_run(states, results),
    ensures
        forall|i: int| 0 <= i < results.len() && !states[0].1 && states[0].0 + i <= usize::MAX
            ==> #[trigger] results[i] == Some((states[0].0 + i) as usize),
        forall|i: int| 0 <= i < results.len() && (states[0].1 || states[0].0 + i > usize::MAX)
            ==> #[trigger] results[i] is None,
{
    assert forall|i: int| 0 <= i < results.len() implies
        (!states[0].1 && states[0].0 + i <= usize::MAX ==> #[trigger] results[i] == Some((states[0].0 + i) as usize))
        && ((states[0].1 || states[0].0 + i > usize::MAX) ==> results[i] is None) by {
        lemma_run_position(states, results, i);
        assert(id_step(states[i], results[i], states[i + 1]));
    }
}

/// Identifiers issued one after another by the same source strictly increase,
/// so no two of them are equal; a fresh source issues 1, 2, 3, and so on up to
/// `usize::MAX`.
pub proof fn lemma_ids_strictly_increase(states: Seq<(usize, bool)>, results: Seq<Option<usize>>)
    requires
        is_issue_run(states, results),
    ensures
        forall|i: int, j: int| 0 <= i < j < results.len() && results[i] is Some && results[j] is Some
            ==> results[i]->0 < results[j]->0,
        states[0] == (1usize, false) ==> forall|k: int| 0 <= k < results.len() && k + 1 <= usize::MAX
            ==> #[trigger] results[k] == Some((k + 1) as usize),
{
    lemma_ids_in_issue_order(states, results);
    assert forall|i: int, j: int| 0 <= i < j < results.len() && results[i] is Some && results[j] is Some
        implies results[i]->0 < results[j]->0 by {
        assert(results[i] == Some((states[0].0 + i) as usize));
        assert(results[j] == Some((states[0].0 + j) as usize));
    }
}

/// Pixel planes of a decoded frame, with the byte length of a row of each.
pub struct NotRgbFrame {
    pub planes: Vec<Vec<u8>>,
    pub linesizes: [i32; 8],
}

/// A decoded frame with its timing, in ticks of the stream's time base.
pub struct FrameCacheItem {
    pub resolved_pts: i64,
    pub resolved_dts: i64,
    /// The time that was asked for when this frame was produced.
    pub asked_time: i64,
    pub frame: NotRgbFrame,
    pub id: usize,
}

/// Decoded frames in the order they were added; nothing is ever removed.
pub struct FrameCache {
    pub items: Vec<FrameCacheItem>,
}

/// `k` is the first position of `items` whose identifier is `id`.
pub open spec fn is_first_with_id(items: Seq<FrameCacheItem>, id: usize, k: int) -> bool {
    &&& 0 <= k < items.len()
    &&& items[k].id == id
    &&& forall|j: int| 0 <= j < k ==> items[j].id != id
}

/// No two items of `items` share an identifier.
pub open spec fn ids_distinct(items: Seq<FrameCacheItem>) -> bool {
    forall|i: int, j: int| 0 <= i < j < items.len() ==> items[i].id != items[j].id
}

/// `k` is the position that a lookup at `time` picks: among the items asked
/// at `time` or later, the first one with the earliest asked time.
pub open spec fn is_ceiling_at(items: Seq<FrameCacheItem>, time: i64, k: int) -> bool {
    &&& 0 <= k < items.len()
    &&& items[k].asked_time >= time
    &&& forall|j: int| 0 <= j < items.len() && items[j].asked_time >= time
            ==> items[k].asked_time <= items[j].asked_time
    &&& forall|j: int| 0 <= j < k && items[j].asked_time >= time
            ==> items[j].asked_time > items[k].asked_time
}

/// Once items with distinct identifiers have been added, the identifier of
/// any of them leads back to that item and to no other: the first item with
/// that identifier is the item itself. An identifier that no item has leads
/// to nothing.
pub proof fn lemma_lookup_by_id_finds_added(items: Seq<FrameCacheItem>, id: usize)
    requires
        ids_distinct(items),
    ensures
        forall|k: int| 0 <= k < items.len() && items[k].id == id
            ==> forall|m: int| is_first_with_id(items, id, m) <==> m == k,
        (forall|k: int| 0 <= k < items.len() ==> items[k].id != id)
            ==> forall|m: int| !is_first_with_id(items, id, m),
{
}

/// A lookup at `time` never returns an item asked before `time`; when some
/// item was asked at exactly `time` it returns one of those, and otherwise one
/// asked at the least time after `time` among all stored items.
pub proof fn lemma_ceiling_lookup(items: Seq<FrameCacheItem>, time: i64, k: int)
    requires
        is_ceiling_at(items, time, k),
    ensures
        items[k].asked_time >= time,
        (exists|j: int| 0 <= j < items.len() && items[j].asked_time == time)
            ==> items[k].asked_time == time,
        forall|j: int| 0 <= j < items.len() && items[j].asked_time >= time
            ==> items[k].asked_time <= items[j].asked_time,
{
}

impl View for FrameCache {
    type V = Seq<FrameCacheItem>;

    open spec fn view(&self) -> Seq<FrameCacheItem> {
        self.items@
    }
}

impl FrameCache {
    /// An empty cache.
    pub fn new() -> (r: Self)
        ensures
            r@ == Seq::<FrameCacheItem>::empty(),
    {
        FrameCache { items: Vec::new() }
    }

    /// Appends `item`, whatever its identifier or time.
    pub fn add_item(&mut self, item: FrameCacheItem)
        ensures
            final(self)@ == old(self)@.push(item),
    {
        self.items.push(item);
    }

    /// The first item whose identifier is `id`, if any.
    pub fn get_item_from_id(&self, id: usize) -> (r: Option<&FrameCacheItem>)
        ensures
            r is None <==> forall|k: int| 0 <= k < self@.len() ==> self@[k].id != id,
            r matches Some(x) ==> exists|k: int| is_first_with_id(self@, id, k) && *x == self@[k],
    {
        let mut i: usize = 0;
        while i < self.items.len()
            invariant
                0 <= i <= self.items.len(),
                forall|j: int| 0 <= j < i ==> self@[j].id != id,
            decreases self.items.len() - i,
        {
            if self.items[i].id == id {
                assert(is_first_with_id(self@, id, i as int));
                return Some(&self.items[i]);
            }
            i = i + 1;
        }
        None
    }

    /// The item asked at `time`, or else the one asked at the earliest later
    /// time; of several such items the first added wins. Items asked before
    /// `time` are never returned.
    pub fn get_item(&self, time: i64) -> (r: Option<&FrameCacheItem>)
        ensures
            r is None <==> forall|k: int| 0 <= k < self@.len() ==> self@[k].asked_time < time,
            r matches Some(x) ==> exists|k: int| is_ceiling_at(self@, time, k) && *x == self@[k],
    {
        let mut best: Option<usize> = None;
        let mut i: usize = 0;
        while i < self.items.len()
            invariant
                0 <= i <= self.items.len(),
                forall|j: int| 0 <= j < i ==> self@[j].asked_time != time,
                best is None ==> forall|j: int| 0 <= j < i ==> self@[j].asked_time < time,
                best matches Some(b) ==> b < i && is_ceiling_at(self@.take(i as int), time, b as int),
            decreases self.items.len() - i,
        {
            let asked = self.items[i].asked_time;
            if asked == time {
                assert(is_ceiling_at(self@, time, i as int));
                return Some(&self.items[i]);
            }
            if asked > time {
                match best {
                    None => {
                        best = Some(i);
                    },
                    Some(b) => {
                        if asked < self.items[b].asked_time {
                            best = Some(i);
                        }
                    },
                }
            }
            i = i + 1;
        }
        assert(self@.take(self@.len() as int) == self@);
        match best {
            None => None,
            Some(b) => Some(&self.items[b]),
        }
    }
}

} // verus!
