use remotion_renderer::frame_cache::{get_frame_cache_id, FrameCache, FrameCacheIds, FrameCacheItem, NotRgbFrame};

fn item(id: usize, asked_time: i64) -> FrameCacheItem {
    FrameCacheItem {
        resolved_pts: asked_time,
        resolved_dts: asked_time,
        asked_time,
        frame: NotRgbFrame { planes: vec![vec![id as u8]], linesizes: [1, 0, 0, 0, 0, 0, 0, 0] },
        id,
    }
}

fn cache_of(entries: &[(usize, i64)]) -> FrameCache {
    let mut cache = FrameCache::new();
    for &(id, t) in entries {
        cache.add_item(item(id, t));
    }
    cache
}

#[test]
fn ids_start_at_one_and_increase() {
    let mut ids = FrameCacheIds::new();
    let a = get_frame_cache_id(&mut ids).unwrap();
    let b = get_frame_cache_id(&mut ids).unwrap();
    let c = get_frame_cache_id(&mut ids).unwrap();
    assert_eq!((a, b, c), (1, 2, 3));
}

#[test]
fn ids_are_distinct_over_many_requests() {
    let mut ids = FrameCacheIds::new();
    let mut last = 0usize;
    for _ in 0..1000 {
        let id = get_frame_cache_id(&mut ids).unwrap();
        assert!(id > last);
        last = id;
    }
}

#[test]
fn ids_run_out_after_the_largest_value() {
    let mut ids = FrameCacheIds::starting_at(usize::MAX - 1);
    assert_eq!(get_frame_cache_id(&mut ids), Some(usize::MAX - 1));
    assert_eq!(get_frame_cache_id(&mut ids), Some(usize::MAX));
    assert_eq!(get_frame_cache_id(&mut ids), None);
    assert_eq!(get_frame_cache_id(&mut ids), None);
}

#[test]
fn ids_continue_from_chosen_start() {
    let mut ids = FrameCacheIds::starting_at(41);
    assert_eq!(get_frame_cache_id(&mut ids), Some(41));
    assert_eq!(get_frame_cache_id(&mut ids), Some(42));
}

#[test]
fn new_cache_is_empty() {
    let cache = FrameCache::new();
    assert!(cache.items.is_empty());
    assert!(cache.get_item(0).is_none());
    assert!(cache.get_item_from_id(1).is_none());
}

#[test]
fn lookup_by_id_returns_inserted_item() {
    let cache = cache_of(&[(1, 100), (2, 50), (3, 300)]);
    for (id, t) in [(1usize, 100i64), (2, 50), (3, 300)] {
        let found = cache.get_item_from_id(id).unwrap();
        assert_eq!(found.id, id);
        assert_eq!(found.asked_time, t);
        assert_eq!(found.frame.planes[0][0], id as u8);
    }
    assert!(cache.get_item_from_id(4).is_none());
    assert!(cache.get_item_from_id(0).is_none());
}

#[test]
fn lookup_by_id_takes_first_of_duplicates() {
    let cache = cache_of(&[(7, 10), (7, 20)]);
    assert_eq!(cache.get_item_from_id(7).unwrap().asked_time, 10);
}

#[test]
fn ceiling_lookup_prefers_exact_match() {
    let cache = cache_of(&[(1, 120), (2, 100), (3, 110)]);
    assert_eq!(cache.get_item(100).unwrap().id, 2);
    assert_eq!(cache.get_item(110).unwrap().id, 3);
}

#[test]
fn ceiling_lookup_takes_least_later_time() {
    let cache = cache_of(&[(1, 300), (2, 150), (3, 90), (4, 200)]);
    assert_eq!(cache.get_item(100).unwrap().id, 2);
    assert_eq!(cache.get_item(151).unwrap().id, 4);
    assert_eq!(cache.get_item(0).unwrap().id, 3);
}

#[test]
fn ceiling_lookup_never_returns_earlier_items() {
    let cache = cache_of(&[(1, 10), (2, 20)]);
    assert!(cache.get_item(21).is_none());
    assert_eq!(cache.get_item(20).unwrap().id, 2);
}

#[test]
fn ceiling_lookup_ties_go_to_first_added() {
    let cache = cache_of(&[(1, 50), (2, 40), (3, 40), (4, 30), (5, 30)]);
    assert_eq!(cache.get_item(35).unwrap().id, 2);
    assert_eq!(cache.get_item(30).unwrap().id, 4);
}

#[test]
fn ceiling_lookup_handles_extreme_times() {
    let cache = cache_of(&[(1, i64::MAX), (2, i64::MIN)]);
    assert_eq!(cache.get_item(0).unwrap().id, 1);
    assert_eq!(cache.get_item(i64::MIN).unwrap().id, 2);
    assert_eq!(cache.get_item(i64::MIN + 1).unwrap().id, 1);
}
