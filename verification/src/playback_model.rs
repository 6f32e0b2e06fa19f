use vstd::prelude::*;

verus! {

/// The subset of a stored track that playback needs.
#[derive(Debug, Clone, PartialEq, Eq)]
pub struct PlaybackTrack {
    pub track_id: i64,
    pub asset_id: i64,
    pub path: String,
    pub sample_rate: u32,
    pub channels: u16,
    pub bits_per_sample: u16,
    pub start_frame: u64,
    pub frame_count: Option<u64>,
}

impl PlaybackTrack {
    /// The exclusive end source frame; `None` when open-ended or when it overflows.
    pub open spec fn end_frame_of(&self) -> Option<u64> {
        match self.frame_count {
            Some(count) => if self.start_frame + count <= u64::MAX {
                Some((self.start_frame + count) as u64)
            } else {
                None
            },
            None => None,
        }
    }

    pub open spec fn holds_frame(&self, source_frame: u64) -> bool {
        &&& self.start_frame <= source_frame
        &&& match self.end_frame_of() {
            Some(end) => source_frame < end,
            None => true,
        }
    }

    pub fn end_frame(&self) -> (r: Option<u64>)
        ensures
            r == self.end_frame_of(),
    {
        match self.frame_count {
            Some(count) => self.start_frame.checked_add(count),
            None => None,
        }
    }

    pub fn contains_frame(&self, source_frame: u64) -> (r: bool)
        ensures
            r == self.holds_frame(source_frame),
    {
        if source_frame < self.start_frame {
            return false;
        }
        match self.end_frame() {
            Some(end) => source_frame < end,
            None => true,
        }
    }

    pub fn local_frame(&self, source_frame: u64) -> (r: Option<u64>)
        ensures
            self.holds_frame(source_frame) ==> r == Some((source_frame - self.start_frame) as u64),
            !self.holds_frame(source_frame) ==> r is None,
    {
        if self.contains_frame(source_frame) {
            Some(source_frame - self.start_frame)
        } else {
            None
        }
    }
}

} // verus!
