use vstd::prelude::*;

verus! {

/// Identifier of a physical audio asset (one audio file).
#[derive(Debug, Clone, Copy, PartialEq, Eq, Hash, Structural)]
pub struct AudioAssetId(pub i64);

/// Identifier of a logical track.
#[derive(Debug, Clone, Copy, PartialEq, Eq, Hash, Structural)]
pub struct TrackId(pub i64);

/// A physical audio file as probed from disk.
#[derive(Debug, Clone, PartialEq, Eq)]
pub struct AudioAsset {
    pub id: AudioAssetId,
    pub path: String,
    pub sample_rate: u32,
    pub channels: u32,
    pub bits_per_sample: u16,
    pub total_frames: Option<u64>,
}

/// A logical track: a frame range inside a physical asset.
#[derive(Debug, Clone, PartialEq, Eq)]
pub struct Track {
    pub id: TrackId,
    pub asset_id: AudioAssetId,
    /// Zero-based start frame inside the physical asset.
    pub start_frame: u64,
    /// Number of frames of this track; `None` means "until the end of the asset".
    pub frame_count: Option<u64>,
    pub disc_number: Option<u32>,
    pub track_number: u32,
    pub title: Option<String>,
    pub performer: Option<String>,
    pub album: Option<String>,
}

/// `a + b`, saturated at `u64::MAX`.
pub open spec fn sat_add(a: u64, b: u64) -> u64 {
    if a + b > u64::MAX {
        u64::MAX
    } else {
        (a + b) as u64
    }
}

pub(crate) fn saturating_add_u64(a: u64, b: u64) -> (r: u64)
    ensures
        r == sat_add(a, b),
{
    if a > u64::MAX - b {
        u64::MAX
    } else {
        a + b
    }
}

impl Track {
    /// The exclusive end frame, saturated at `u64::MAX`; `None` when open-ended.
    pub open spec fn end_frame_of(&self) -> Option<u64> {
        match self.frame_count {
            Some(count) => Some(sat_add(self.start_frame, count)),
            None => None,
        }
    }

    /// Whether the asset frame belongs to this track.
    pub open spec fn holds_frame(&self, frame: u64) -> bool {
        &&& self.start_frame <= frame
        &&& match self.frame_count {
            Some(count) => frame < sat_add(self.start_frame, count),
            None => true,
        }
    }

    pub fn end_frame(&self) -> (r: Option<u64>)
        ensures
            r == self.end_frame_of(),
    {
        match self.frame_count {
            Some(count) => Some(saturating_add_u64(self.start_frame, count)),
            None => None,
        }
    }

    pub fn contains_frame(&self, frame: u64) -> (r: bool)
        ensures
            r == self.holds_frame(frame),
    {
        if frame < self.start_frame {
            return false;
        }
        match self.frame_count {
            Some(count) => frame < saturating_add_u64(self.start_frame, count),
            None => true,
        }
    }

    /// The frame offset inside the track of an asset frame, when the track holds it.
    pub fn local_frame(&self, asset_frame: u64) -> (r: Option<u64>)
        ensures
            self.holds_frame(asset_frame) ==> r == Some((asset_frame - self.start_frame) as u64),
            !self.holds_frame(asset_frame) ==> r is None,
    {
        if !self.contains_frame(asset_frame) {
            return None;
        }
        Some(asset_frame - self.start_frame)
    }
}

/// An ordered list of the logical tracks of one asset.
#[derive(Debug, Clone, PartialEq, Eq)]
pub struct TrackIndex {
    pub tracks: Vec<Track>,
}

/// Why a track list is not a valid index.
#[derive(Debug, Clone, PartialEq, Eq, Structural)]
pub enum TrackIndexError {
    Unsorted { previous: u64, current: u64 },
    Overlap { left_start: u64, left_end: u64, right_start: u64 },
}

/// Two neighbouring tracks are in order and do not overlap.
pub open spec fn neighbours_ok(left: Track, right: Track) -> bool {
    &&& left.start_frame <= right.start_frame
    &&& match left.end_frame_of() {
        Some(end) => end <= right.start_frame,
        None => true,
    }
}

/// The error reported for two neighbouring tracks that are not in order.
pub open spec fn neighbours_error(left: Track, right: Track) -> TrackIndexError {
    if right.start_frame < left.start_frame {
        TrackIndexError::Unsorted { previous: left.start_frame, current: right.start_frame }
    } else {
        TrackIndexError::Overlap {
            left_start: left.start_frame,
            left_end: left.end_frame_of()->0,
            right_start: right.start_frame,
        }
    }
}

/// Every pair of neighbours in the list is in order and disjoint.
pub open spec fn tracks_well_ordered(tracks: Seq<Track>) -> bool {
    forall|i: int| 0 <= i < tracks.len() - 1 ==> #[trigger] neighbours_ok(tracks[i], tracks[i + 1])
}

impl TrackIndex {
    pub fn new(tracks: Vec<Track>) -> (r: Self)
        ensures
            r.tracks@ == tracks@,
    {
        Self { tracks }
    }

    /// The first track that holds the frame.
    pub fn find_frame(&self, frame: u64) -> (r: Option<&Track>)
        ensures
            match r {
                Some(t) => exists|i: int|
                    0 <= i < self.tracks@.len() && *t == self.tracks@[i]
                        && self.tracks@[i].holds_frame(frame) && forall|j: int|
                        0 <= j < i ==> !#[trigger] self.tracks@[j].holds_frame(frame),
                None => forall|j: int|
                    0 <= j < self.tracks@.len() ==> !#[trigger] self.tracks@[j].holds_frame(frame),
            },
    {
        let mut i: usize = 0;
        while i < self.tracks.len()
            invariant
                i <= self.tracks@.len(),
                forall|j: int| 0 <= j < i ==> !#[trigger] self.tracks@[j].holds_frame(frame),
            decreases self.tracks@.len() - i,
        {
            if self.tracks[i].contains_frame(frame) {
                return Some(&self.tracks[i]);
            }
            i = i + 1;
        }
        None
    }

    /// Checks that the tracks are sorted by start frame and that no bounded
    /// track reaches past the start of its successor.
    pub fn validate(&self) -> (r: Result<(), TrackIndexError>)
        ensures
            r is Ok <==> tracks_well_ordered(self.tracks@),
            r matches Err(e) ==> exists|i: int|
                0 <= i < self.tracks@.len() - 1 && !#[trigger] neighbours_ok(self.tracks@[i], self.tracks@[i + 1])
                    && e == neighbours_error(self.tracks@[i], self.tracks@[i + 1])
                    && forall|j: int| 0 <= j < i ==> #[trigger] neighbours_ok(self.tracks@[j], self.tracks@[j + 1]),
    {
        let n = self.tracks.len();
        let mut i: usize = 0;
        while i + 1 < n
            invariant
                n == self.tracks@.len(),
                i + 1 <= n || n == 0,
                i <= n,
                forall|j: int| 0 <= j < i ==> #[trigger] neighbours_ok(self.tracks@[j], self.tracks@[j + 1]),
            decreases n - i,
        {
            let left = &self.tracks[i];
            let right = &self.tracks[i + 1];
            if right.start_frame < left.start_frame {
                assert(!neighbours_ok(self.tracks@[i as int], self.tracks@[i + 1]));
                return Err(TrackIndexError::Unsorted {
                    previous: left.start_frame,
                    current: right.start_frame,
                });
            }
            if let Some(left_end) = left.end_frame() {
                if right.start_frame < left_end {
                    assert(!neighbours_ok(self.tracks@[i as int], self.tracks@[i + 1]));
                    return Err(TrackIndexError::Overlap {
                        left_start: left.start_frame,
                        left_end,
                        right_start: right.start_frame,
                    });
                }
            }
            i = i + 1;
        }
        proof {
            assert forall|j: int| 0 <= j < self.tracks@.len() - 1 implies #[trigger] neighbours_ok(
                self.tracks@[j],
                self.tracks@[j + 1],
            ) by {
                assert(j < i);
            }
        }
        Ok(())
    }
}

/// In a well-ordered index whose tracks are all bounded, no asset frame is
/// held by two different tracks: `find_frame` names the only track holding it.
pub proof fn lemma_bounded_well_ordered_tracks_are_disjoint(tracks: Seq<Track>, i: int, j: int, frame: u64)
    requires
        tracks_well_ordered(tracks),
        forall|k: int| 0 <= k < tracks.len() ==> (#[trigger] tracks[k]).frame_count is Some,
        0 <= i < j < tracks.len(),
    ensures
        !(tracks[i].holds_frame(frame) && tracks[j].holds_frame(frame)),
    decreases j - i,
{
    assert(neighbours_ok(tracks[i], tracks[i + 1]));
    if j > i + 1 {
        lemma_bounded_well_ordered_tracks_are_disjoint(tracks, i + 1, j, frame);
        lemma_well_ordered_starts_grow(tracks, i + 1, j);
    }
}

/// In a well-ordered index, start frames never decrease.
pub proof fn lemma_well_ordered_starts_grow(tracks: Seq<Track>, i: int, j: int)
    requires
        tracks_well_ordered(tracks),
        0 <= i <= j < tracks.len(),
    ensures
        tracks[i].start_frame <= tracks[j].start_frame,
    decreases j - i,
{
    if i < j {
        assert(neighbours_ok(tracks[i], tracks[i + 1]));
        lemma_well_ordered_starts_grow(tracks, i + 1, j);
    }
}

} // verus!
