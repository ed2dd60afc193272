//! The decisions of one frame request: whether to seek first, which packets
//! to feed to the decoder, and when the search has ended.
//!
//! The demuxer and decoder are driven by the caller, which performs each
//! returned action and reports what came of it.
use vstd::prelude::*;

verus! {

/// Whether the demuxer must seek before frames at `position` can be read:
/// the target lies behind the decoder's last position, or more than the
/// look-back margin (down to `min_position`) ahead of it.
pub fn needs_seek(position: i64, min_position: i64, last_seek: i64) -> (r: bool)
    ensures
        r == (position < last_seek || last_seek < min_position),
{
    position < last_seek || last_seek < min_position
}

/// A packet with decode timestamp `dts` starts after the frame wanted at
/// `position`, allowing one tick for a fractional target.
pub open spec fn is_past_target(dts: i64, position: i64) -> bool {
    dts - 1 > position
}

/// What the demuxer handed over when asked for the next packet.
#[derive(PartialEq, Eq, Structural, Clone, Copy, Debug)]
pub enum Packet {
    Exhausted,
    OtherStream,
    Video { dts: i64 },
}

/// What the decoder answered after a packet was sent to it.
#[derive(PartialEq, Eq, Structural, Clone, Copy, Debug)]
pub enum DecodeResult {
    Frame,
    NeedsMoreInput,
    Failed,
}

/// Why a frame request failed.
#[derive(PartialEq, Eq, Structural, Clone, Copy, Debug)]
pub enum ExtractError {
    Open,
    Seek,
    Decode,
    FrameNotFound,
}

impl ExtractError {
    /// A short description of the failure.
    pub fn to_string(&self) -> (r: String)
        ensures
            *self == ExtractError::Open ==> r@ == "Could not open the video"@,
            *self == ExtractError::Seek ==> r@ == "Seeking in the video failed"@,
            *self == ExtractError::Decode ==> r@ == "Decoding the video failed"@,
            *self == ExtractError::FrameNotFound ==> r@ == "No frame found"@,
    {
        match self {
            ExtractError::Open => "Could not open the video".to_string(),
            ExtractError::Seek => "Seeking in the video failed".to_string(),
            ExtractError::Decode => "Decoding the video failed".to_string(),
            ExtractError::FrameNotFound => "No frame found".to_string(),
        }
    }
}

/// What the caller does next on behalf of the search.
#[derive(PartialEq, Eq, Structural, Clone, Copy, Debug)]
pub enum SearchAction {
    /// Seek the demuxer to a position in `min_position..=position`.
    Seek { min_position: i64, position: i64 },
    ReadPacket,
    /// Send the packet just read to the decoder and try to receive a frame.
    SendPacket,
    /// Convert the frame just received and encode it.
    Convert,
    Fail(ExtractError),
}

#[derive(PartialEq, Eq, Structural, Clone, Copy, Debug)]
pub enum SearchPhase {
    Seeking,
    Reading,
    Decoding { dts: i64 },
    Found,
    Failed,
}

/// The state of one frame request, in ticks of the stream's time base.
pub struct FrameSearch {
    pub position: i64,
    pub min_position: i64,
    /// Decode timestamp of the packet that last gave a frame.
    pub last_seek: i64,
    pub phase: SearchPhase,
}

impl FrameSearch {
    /// Starts a request for the frame at `position`, seeking first when
    /// `needs_seek` says so.
    pub fn start(position: i64, min_position: i64, last_seek: i64) -> (r: (FrameSearch, SearchAction))
        ensures
            r.0.position == position,
            r.0.min_position == min_position,
            r.0.last_seek == last_seek,
            (position < last_seek || last_seek < min_position) ==> r.0.phase == SearchPhase::Seeking
                && r.1 == (SearchAction::Seek { min_position, position }),
            !(position < last_seek || last_seek < min_position) ==> r.0.phase == SearchPhase::Reading
                && r.1 == SearchAction::ReadPacket,
    {
        if needs_seek(position, min_position, last_seek) {
            let s = FrameSearch { position, min_position, last_seek, phase: SearchPhase::Seeking };
            (s, SearchAction::Seek { min_position, position })
        } else {
            let s = FrameSearch { position, min_position, last_seek, phase: SearchPhase::Reading };
            (s, SearchAction::ReadPacket)
        }
    }

    /// Takes the outcome of the seek: reading starts, or the request fails.
    pub fn on_seek(&mut self, succeeded: bool) -> (r: SearchAction)
        requires
            old(self).phase == SearchPhase::Seeking,
        ensures
            final(self).position == old(self).position,
            final(self).min_position == old(self).min_position,
            final(self).last_seek == old(self).last_seek,
            succeeded ==> final(self).phase == SearchPhase::Reading && r == SearchAction::ReadPacket,
            !succeeded ==> final(self).phase == SearchPhase::Failed
                && r == SearchAction::Fail(ExtractError::Seek),
    {
        if succeeded {
            self.phase = SearchPhase::Reading;
            SearchAction::ReadPacket
        } else {
            self.phase = SearchPhase::Failed;
            SearchAction::Fail(ExtractError::Seek)
        }
    }

    /// Takes the next packet: the search ends without a frame when the input
    /// is exhausted or the packet starts past the target; a packet of another
    /// stream is skipped; any other packet goes to the decoder.
    pub fn on_packet(&mut self, packet: Packet) -> (r: SearchAction)
        requires
            old(self).phase == SearchPhase::Reading,
        ensures
            final(self).position == old(self).position,
            final(self).min_position == old(self).min_position,
            final(self).last_seek == old(self).last_seek,
            match packet {
                Packet::Exhausted => final(self).phase == SearchPhase::Failed
                    && r == SearchAction::Fail(ExtractError::FrameNotFound),
                Packet::OtherStream => final(self).phase == SearchPhase::Reading
                    && r == SearchAction::ReadPacket,
                Packet::Video { dts } => if is_past_target(dts, old(self).position) {
                    final(self).phase == SearchPhase::Failed
                        && r == SearchAction::Fail(ExtractError::FrameNotFound)
                } else {
                    final(self).phase == (SearchPhase::Decoding { dts })
                        && r == SearchAction::SendPacket
                },
            },
    {
        match packet {
            Packet::Exhausted => {
                self.phase = SearchPhase::Failed;
                SearchAction::Fail(ExtractError::FrameNotFound)
            },
            Packet::OtherStream => SearchAction::ReadPacket,
            Packet::Video { dts } => {
                if dts > i64::MIN && dts - 1 > self.position {
                    self.phase = SearchPhase::Failed;
                    SearchAction::Fail(ExtractError::FrameNotFound)
                } else {
                    self.phase = SearchPhase::Decoding { dts };
                    SearchAction::SendPacket
                }
            },
        }
    }

    /// Takes the decoder's answer to the packet last sent: a frame ends the
    /// search and moves `last_seek` to that packet's decode timestamp; a
    /// request for more input reads on; a failure ends the request.
    pub fn on_decoded(&mut self, result: DecodeResult) -> (r: SearchAction)
        requires
            old(self).phase is Decoding,
        ensures
            final(self).position == old(self).position,
            final(self).min_position == old(self).min_position,
            match result {
                DecodeResult::Frame => final(self).phase == SearchPhase::Found
                    && final(self).last_seek == old(self).phase->dts
                    && r == SearchAction::Convert,
                DecodeResult::NeedsMoreInput => final(self).phase == SearchPhase::Reading
                    && final(self).last_seek == old(self).last_seek
                    && r == SearchAction::ReadPacket,
                DecodeResult::Failed => final(self).phase == SearchPhase::Failed
                    && final(self).last_seek == old(self).last_seek
                    && r == SearchAction::Fail(ExtractError::Decode),
            },
    {
        let dts = match self.phase {
            SearchPhase::Decoding { dts } => dts,
            _ => self.last_seek,
        };
        match result {
            DecodeResult::Frame => {
                self.last_seek = dts;
                self.phase = SearchPhase::Found;
                SearchAction::Convert
            },
            DecodeResult::NeedsMoreInput => {
                self.phase = SearchPhase::Reading;
                SearchAction::ReadPacket
            },
            DecodeResult::Failed => {
                self.phase = SearchPhase::Failed;
                SearchAction::Fail(ExtractError::Decode)
            },
        }
    }
}

} // verus!
