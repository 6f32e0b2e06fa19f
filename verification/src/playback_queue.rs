use vstd::prelude::*;

use crate::playback_control::PlaybackState;
use crate::playback_model::PlaybackTrack;

verus! {

broadcast use {vstd::seq_lib::group_to_multiset_ensures, vstd::multiset::group_multiset_axioms};

/// What happens when the current track ends.
#[derive(Debug, Clone, Copy, PartialEq, Eq, Structural)]
pub enum RepeatMode {
    Off,
    Track,
    Queue,
}

impl Default for RepeatMode {
    fn default() -> (r: Self)
        ensures
            r == RepeatMode::Off,
    {
        RepeatMode::Off
    }
}

/// The current entry of a queue.
#[derive(Debug, Clone, Copy, PartialEq, Eq, Structural)]
pub struct QueuePosition {
    pub index: usize,
    pub track_id: i64,
}

#[derive(Debug, Clone, PartialEq, Eq)]
pub enum PlaybackQueueError {
    Empty,
    IndexOutOfRange { index: usize, len: usize },
    InvalidReorder,
    TrackNotFound { track_id: i64 },
    /// A library lookup failed; the library's message.
    Library(String),
    /// Playback failed; the player's message.
    Playback(String),
}

/// An ordered list of library track ids with a current entry. The tracks
/// right after the current one that were added with "play next" form the
/// up-next segment, whose length is `queued_count`.
pub struct PlaybackQueue {
    track_ids: Vec<i64>,
    current_index: Option<usize>,
    queued_count: usize,
    repeat_mode: RepeatMode,
}

/// The mathematical value of a [`PlaybackQueue`].
pub struct QueueView {
    pub track_ids: Seq<i64>,
    pub current_index: Option<usize>,
    pub queued_count: usize,
    pub repeat_mode: RepeatMode,
}

impl QueueView {
    /// A queue has a current entry exactly when it is not empty, and the
    /// up-next segment fits after the current entry.
    pub open spec fn wf(self) -> bool {
        match self.current_index {
            None => self.track_ids.len() == 0 && self.queued_count == 0,
            Some(c) => c + 1 + self.queued_count <= self.track_ids.len(),
        }
    }
}

impl View for PlaybackQueue {
    type V = QueueView;

    closed spec fn view(&self) -> QueueView {
        QueueView {
            track_ids: self.track_ids@,
            current_index: self.current_index,
            queued_count: self.queued_count,
            repeat_mode: self.repeat_mode,
        }
    }
}

/// Whether a library lookup found its track.
pub open spec fn found(lookup: Result<Option<PlaybackTrack>, String>) -> bool {
    lookup matches Ok(Some(_))
}

/// The error a failed lookup of `track_id` turns into.
pub open spec fn lookup_error(lookup: Result<Option<PlaybackTrack>, String>, track_id: i64) -> PlaybackQueueError {
    match lookup {
        Err(message) => PlaybackQueueError::Library(message),
        _ => PlaybackQueueError::TrackNotFound { track_id },
    }
}

/// The queue after `track_id` was added: right after the up-next segment, or
/// as the only, current entry of an empty queue.
pub open spec fn added(v: QueueView, track_id: i64) -> QueueView {
    match v.current_index {
        Some(c) => {
            let at = if c + 1 + v.queued_count <= v.track_ids.len() {
                c + 1 + v.queued_count
            } else {
                v.track_ids.len() as int
            };
            QueueView {
                track_ids: v.track_ids.insert(at, track_id),
                queued_count: (v.queued_count + 1) as usize,
                ..v
            }
        },
        None => QueueView { track_ids: v.track_ids.push(track_id), current_index: Some(0), ..v },
    }
}

/// The queue after entry `index` became current. Moving forward inside the
/// up-next segment keeps the part of it still ahead; any other move ends it.
pub open spec fn selected(v: QueueView, index: usize) -> QueueView {
    let queued_count: usize = match v.current_index {
        Some(previous) => if index != previous {
            let boundary = previous + 1 + v.queued_count;
            if index > previous && index < boundary {
                (boundary - index - 1) as usize
            } else {
                0
            }
        } else {
            v.queued_count
        },
        None => v.queued_count,
    };
    QueueView { current_index: Some(index), queued_count, ..v }
}

/// `start + len`, saturated at `usize::MAX`.
pub open spec fn segment_end(start: usize, len: nat) -> usize {
    if start + len > usize::MAX {
        usize::MAX
    } else {
        (start + len) as usize
    }
}

/// The result of replacing the entries from `start` on by `ids`, a new order of
/// the same tracks. Only entries after the current one may be reordered. When
/// the whole rest of the queue is reordered the up-next segment ends.
pub open spec fn reorder_of(v: QueueView, start: usize, ids: Seq<i64>) -> Result<QueueView, PlaybackQueueError> {
    match v.current_index {
        None => Err(PlaybackQueueError::Empty),
        Some(c) => {
            let end = segment_end(start, ids.len());
            let len = v.track_ids.len();
            if start <= c || end > len {
                Err(PlaybackQueueError::IndexOutOfRange { index: end, len: len as usize })
            } else if v.track_ids.subrange(start as int, end as int).to_multiset() != ids.to_multiset() {
                Err(PlaybackQueueError::InvalidReorder)
            } else {
                Ok(
                    QueueView {
                        track_ids: v.track_ids.subrange(0, start as int) + ids + v.track_ids.subrange(
                            end as int,
                            len as int,
                        ),
                        queued_count: if start == c + 1 && end == len {
                            0
                        } else {
                            v.queued_count
                        },
                        ..v
                    },
                )
            }
        },
    }
}

/// The entry "next" goes to: the following one, none at the end (no wrap).
pub open spec fn next_target_of(v: QueueView) -> Result<Option<usize>, PlaybackQueueError> {
    match v.current_index {
        None => Err(PlaybackQueueError::Empty),
        Some(c) => if c + 1 >= v.track_ids.len() {
            Ok(None)
        } else {
            Ok(Some((c + 1) as usize))
        },
    }
}

/// The entry "previous" goes to: the one before, none at the start (no wrap).
pub open spec fn previous_target_of(v: QueueView) -> Result<Option<usize>, PlaybackQueueError> {
    match v.current_index {
        None => Err(PlaybackQueueError::Empty),
        Some(c) => if c == 0 {
            Ok(None)
        } else {
            Ok(Some((c - 1) as usize))
        },
    }
}

/// The entry after the current one in queue order, wrapping to the first.
pub open spec fn wrapped_next_of(v: QueueView) -> Result<Option<usize>, PlaybackQueueError> {
    match v.current_index {
        None => Err(PlaybackQueueError::Empty),
        Some(c) => if c + 1 < v.track_ids.len() {
            Ok(Some((c + 1) as usize))
        } else if v.track_ids.len() == 0 {
            Err(PlaybackQueueError::Empty)
        } else {
            Ok(Some(0))
        },
    }
}

/// The entry "advance" plays under the repeat mode: the current one again,
/// the next one without wrapping, or the next one wrapping to the first.
pub open spec fn advance_target_of(v: QueueView) -> Result<Option<usize>, PlaybackQueueError> {
    match v.repeat_mode {
        RepeatMode::Track => match v.current_index {
            None => Err(PlaybackQueueError::Empty),
            Some(c) => Ok(Some(c)),
        },
        RepeatMode::Off => next_target_of(v),
        RepeatMode::Queue => wrapped_next_of(v),
    }
}

/// What to do when the player reports on the current track.
#[derive(Debug, Clone, Copy, PartialEq, Eq, Structural)]
pub enum EndOfTrackAction {
    /// Not playing, or not at the end yet: nothing to do.
    Continue,
    /// Select, load and play this entry.
    Play(usize),
    /// The queue ran out: stop the player.
    Stop,
}

pub open spec fn end_of_track_of(v: QueueView, state: PlaybackState, at_end: bool) -> Result<
    EndOfTrackAction,
    PlaybackQueueError,
> {
    match v.current_index {
        None => Err(PlaybackQueueError::Empty),
        Some(c) => if !(state is Playing) || !at_end {
            Ok(EndOfTrackAction::Continue)
        } else {
            match v.repeat_mode {
                RepeatMode::Track => Ok(EndOfTrackAction::Play(c)),
                RepeatMode::Queue => match wrapped_next_of(v) {
                    Ok(Some(i)) => Ok(EndOfTrackAction::Play(i)),
                    Ok(None) => Ok(EndOfTrackAction::Stop),
                    Err(e) => Err(e),
                },
                RepeatMode::Off => if c + 1 >= v.track_ids.len() {
                    Ok(EndOfTrackAction::Stop)
                } else {
                    Ok(EndOfTrackAction::Play((c + 1) as usize))
                },
            }
        },
    }
}

/// The first position of `x` in `v`.
fn position_of(v: &Vec<i64>, x: i64) -> (r: Option<usize>)
    ensures
        match r {
            Some(j) => j < v@.len() && v@[j as int] == x,
            None => !v@.contains(x),
        },
{
    let mut j: usize = 0;
    while j < v.len()
        invariant
            j <= v@.len(),
            forall|t: int| 0 <= t < j ==> v@[t] != x,
        decreases v@.len() - j,
    {
        if v[j] == x {
            return Some(j);
        }
        j = j + 1;
    }
    None
}

/// Whether `segment[from..to]` and `received` hold the same ids, each as
/// often.
fn same_tracks(segment: &[i64], from: usize, to: usize, received: &[i64]) -> (r: bool)
    requires
        from <= to <= segment@.len(),
    ensures
        r == (segment@.subrange(from as int, to as int).to_multiset() == received@.to_multiset()),
        r ==> to - from == received@.len(),
{
    let ghost expected = segment@.subrange(from as int, to as int);
    if to - from != received.len() {
        assert(expected.to_multiset().len() != received@.to_multiset().len());
        return false;
    }
    let mut pool: Vec<i64> = Vec::new();
    let mut i: usize = from;
    while i < to
        invariant
            from <= i <= to <= segment@.len(),
            pool@ == segment@.subrange(from as int, i as int),
        decreases to - i,
    {
        pool.push(segment[i]);
        assert(segment@.subrange(from as int, i + 1) =~= segment@.subrange(from as int, i as int).push(
            segment@[i as int],
        ));
        i = i + 1;
    }
    let mut k: usize = 0;
    while k < received.len()
        invariant
            k <= received@.len(),
            from <= to <= segment@.len(),
            expected == segment@.subrange(from as int, to as int),
            expected.len() == received@.len(),
            pool@.len() + k == expected.len(),
            pool@.to_multiset().add(received@.subrange(0, k as int).to_multiset())
                == expected.to_multiset(),
        decreases received@.len() - k,
    {
        let x = received[k];
        let ghost before = received@.subrange(0, k as int);
        let ghost rest = received@.subrange(k as int, received@.len() as int);
        match position_of(&pool, x) {
            None => {
                proof {
                    assert(received@ =~= before + rest);
                    vstd::seq_lib::lemma_multiset_commutative(before, rest);
                    assert(rest[0] == x);
                    assert(rest.contains(x));
                    assert(pool@.to_multiset().count(x) == 0);
                    assert(expected.to_multiset().count(x) == before.to_multiset().count(x));
                    assert(received@.to_multiset().count(x) > before.to_multiset().count(x));
                    assert(expected.to_multiset().count(x) != received@.to_multiset().count(x));
                    assert(expected.to_multiset() != received@.to_multiset());
                    assert(segment@.subrange(from as int, to as int) == expected);
                }
                return false;
            },
            Some(j) => {
                let ghost old_pool = pool@;
                pool.remove(j);
                proof {
                    assert(received@.subrange(0, k + 1) =~= before.push(x));
                    assert(old_pool.contains(x));
                    assert(old_pool.to_multiset().count(x) > 0);
                    assert(pool@.to_multiset() == old_pool.to_multiset().remove(x));
                    assert(pool@.to_multiset().add(received@.subrange(0, k + 1).to_multiset())
                        =~= old_pool.to_multiset().add(before.to_multiset()));
                }
            },
        }
        k = k + 1;
    }
    proof {
        assert(pool@ =~= Seq::<i64>::empty());
        assert(pool@.to_multiset().len() == 0);
        assert(pool@.to_multiset() =~= vstd::multiset::Multiset::<i64>::empty());
        assert(received@.subrange(0, received@.len() as int) =~= received@);
        assert(expected.to_multiset() =~= received@.to_multiset());
    }
    true
}

impl PlaybackQueue {
    pub fn new() -> (r: Self)
        ensures
            r@ == (QueueView {
                track_ids: Seq::empty(),
                current_index: None,
                queued_count: 0,
                repeat_mode: RepeatMode::Off,
            }),
            r@.wf(),
    {
        PlaybackQueue {
            track_ids: Vec::new(),
            current_index: None,
            queued_count: 0,
            repeat_mode: RepeatMode::Off,
        }
    }

    /// Replaces the queue by `track_ids`, each of which must be in the library;
    /// `lookups[i]` is the library's answer for `track_ids[i]`. The first id
    /// the library does not give back decides the error, and the queue is then
    /// left as it was.
    pub fn set_queue(
        &mut self,
        track_ids: Vec<i64>,
        lookups: &[Result<Option<PlaybackTrack>, String>],
    ) -> (r: Result<(), PlaybackQueueError>)
        requires
            old(self)@.wf(),
            lookups@.len() == track_ids@.len(),
        ensures
            final(self)@.wf(),
            r is Ok <==> forall|i: int| 0 <= i < lookups@.len() ==> found(#[trigger] lookups@[i]),
            r is Ok ==> final(self)@ == (QueueView {
                track_ids: track_ids@,
                current_index: if track_ids@.len() == 0 {
                    None
                } else {
                    Some(0)
                },
                queued_count: 0,
                repeat_mode: old(self)@.repeat_mode,
            }),
            r matches Err(e) ==> final(self)@ == old(self)@ && exists|k: int|
                0 <= k < lookups@.len() && !found(#[trigger] lookups@[k]) && (forall|j: int|
                    0 <= j < k ==> found(#[trigger] lookups@[j])) && e == lookup_error(
                    lookups@[k],
                    track_ids@[k],
                ),
    {
        let mut i: usize = 0;
        while i < lookups.len()
            invariant
                i <= lookups@.len(),
                lookups@.len() == track_ids@.len(),
                self@ == old(self)@,
                old(self)@.wf(),
                forall|j: int| 0 <= j < i ==> found(#[trigger] lookups@[j]),
            decreases lookups@.len() - i,
        {
            match &lookups[i] {
                Ok(Some(_)) => {},
                Ok(None) => {
                    return Err(PlaybackQueueError::TrackNotFound { track_id: track_ids[i] });
                },
                Err(message) => {
                    return Err(PlaybackQueueError::Library(message.clone()));
                },
            }
            i = i + 1;
        }
        let empty = track_ids.len() == 0;
        self.track_ids = track_ids;
        self.current_index = if empty {
            None
        } else {
            Some(0)
        };
        self.queued_count = 0;
        Ok(())
    }

    /// Adds a library track after the up-next segment ("play next, after the
    /// ones already added"), or as the current entry of an empty queue.
    /// Returns the new length.
    pub fn add_to_queue(&mut self, track_id: i64, lookup: Result<Option<PlaybackTrack>, String>) -> (r:
        Result<usize, PlaybackQueueError>)
        requires
            old(self)@.wf(),
            old(self)@.track_ids.len() < usize::MAX,
        ensures
            final(self)@.wf(),
            found(lookup) ==> final(self)@ == added(old(self)@, track_id) && r == Ok::<
                usize,
                PlaybackQueueError,
            >(final(self)@.track_ids.len() as usize),
            !found(lookup) ==> final(self)@ == old(self)@ && r == Err::<usize, PlaybackQueueError>(
                lookup_error(lookup, track_id),
            ),
            found(lookup) ==> r == Ok::<usize, PlaybackQueueError>((old(self)@.track_ids.len() + 1) as usize),
            found(lookup) ==> (old(self)@.current_index matches Some(c) ==> {
                let p = c + 1 + old(self)@.queued_count;
                &&& final(self)@.track_ids == old(self)@.track_ids.subrange(0, p) + seq![track_id]
                    + old(self)@.track_ids.subrange(p, old(self)@.track_ids.len() as int)
                &&& final(self)@.current_index == Some(c)
                &&& final(self)@.queued_count == old(self)@.queued_count + 1
            }),
            found(lookup) && old(self)@.current_index is None ==> final(self)@.track_ids == seq![
                track_id,
            ] && final(self)@.current_index == Some(0usize),
    {
        proof {
            lemma_add_to_queue_inserts_after_up_next(old(self)@, track_id);
        }
        match lookup {
            Ok(Some(_)) => {},
            Ok(None) => {
                return Err(PlaybackQueueError::TrackNotFound { track_id });
            },
            Err(message) => {
                return Err(PlaybackQueueError::Library(message));
            },
        }
        match self.current_index {
            Some(c) => {
                let wanted = c + 1 + self.queued_count;
                let at = if wanted <= self.track_ids.len() {
                    wanted
                } else {
                    self.track_ids.len()
                };
                self.track_ids.insert(at, track_id);
                self.queued_count = self.queued_count + 1;
            },
            None => {
                self.track_ids.push(track_id);
                self.current_index = Some(0);
            },
        }
        Ok(self.track_ids.len())
    }

    pub fn clear(&mut self)
        ensures
            final(self)@ == (QueueView {
                track_ids: Seq::empty(),
                current_index: None,
                queued_count: 0,
                repeat_mode: old(self)@.repeat_mode,
            }),
            final(self)@.wf(),
    {
        self.track_ids.clear();
        self.current_index = None;
        self.queued_count = 0;
    }

    pub fn len(&self) -> (r: usize)
        ensures
            r == self@.track_ids.len(),
    {
        self.track_ids.len()
    }

    pub fn is_empty(&self) -> (r: bool)
        ensures
            r == (self@.track_ids.len() == 0),
    {
        self.track_ids.len() == 0
    }

    pub fn track_ids(&self) -> (r: &[i64])
        ensures
            r@ == self@.track_ids,
    {
        self.track_ids.as_slice()
    }

    pub fn track_id_at(&self, index: usize) -> (r: Option<i64>)
        ensures
            index < self@.track_ids.len() ==> r == Some(self@.track_ids[index as int]),
            index >= self@.track_ids.len() ==> r is None,
    {
        if index < self.track_ids.len() {
            Some(self.track_ids[index])
        } else {
            None
        }
    }

    pub fn queued_count(&self) -> (r: usize)
        ensures
            r == self@.queued_count,
    {
        self.queued_count
    }

    /// Puts the entries from `start` on into the order of `reordered_ids`,
    /// which must hold the same tracks.
    pub fn reorder_segment(&mut self, start: usize, reordered_ids: Vec<i64>) -> (r: Result<
        (),
        PlaybackQueueError,
    >)
        requires
            old(self)@.wf(),
        ensures
            final(self)@.wf(),
            match reorder_of(old(self)@, start, reordered_ids@) {
                Ok(v) => r is Ok && final(self)@ == v,
                Err(e) => r == Err::<(), PlaybackQueueError>(e) && final(self)@ == old(self)@,
            },
    {
        let c = match self.current_index {
            Some(c) => c,
            None => return Err(PlaybackQueueError::Empty),
        };
        let n = reordered_ids.len();
        let end: usize = if start > usize::MAX - n {
            usize::MAX
        } else {
            start + n
        };
        let len = self.track_ids.len();
        if start <= c || end > len {
            return Err(PlaybackQueueError::IndexOutOfRange { index: end, len });
        }
        if !same_tracks(self.track_ids.as_slice(), start, end, reordered_ids.as_slice()) {
            return Err(PlaybackQueueError::InvalidReorder);
        }
        assert(end == start + n);
        let ghost before = self.track_ids@;
        let mut k: usize = 0;
        while k < n
            invariant
                k <= n,
                n == reordered_ids@.len(),
                end == start + n,
                end <= len,
                len == before.len(),
                self.track_ids@.len() == len,
                self.current_index == Some(c),
                self.queued_count == old(self).queued_count,
                self.repeat_mode == old(self).repeat_mode,
                old(self)@.wf(),
                old(self)@.current_index == Some(c),
                forall|t: int|
                    0 <= t < len ==> #[trigger] self.track_ids@[t] == if start <= t < start + k {
                        reordered_ids@[t - start]
                    } else {
                        before[t]
                    },
            decreases n - k,
        {
            self.track_ids.set(start + k, reordered_ids[k]);
            k = k + 1;
        }
        assert(self.track_ids@ =~= before.subrange(0, start as int) + reordered_ids@ + before.subrange(
            end as int,
            len as int,
        ));
        if start == c + 1 && end == len {
            self.queued_count = 0;
        }
        Ok(())
    }

    pub fn current_index(&self) -> (r: Option<usize>)
        ensures
            r == self@.current_index,
    {
        self.current_index
    }

    pub fn repeat_mode(&self) -> (r: RepeatMode)
        ensures
            r == self@.repeat_mode,
    {
        self.repeat_mode
    }

    pub fn set_repeat_mode(&mut self, repeat_mode: RepeatMode)
        ensures
            final(self)@ == (QueueView { repeat_mode, ..old(self)@ }),
    {
        self.repeat_mode = repeat_mode;
    }

    pub fn current_position(&self) -> (r: Option<QueuePosition>)
        requires
            self@.wf(),
        ensures
            r == match self@.current_index {
                Some(c) => Some(QueuePosition { index: c, track_id: self@.track_ids[c as int] }),
                None => None,
            },
    {
        match self.current_index {
            Some(index) => Some(QueuePosition { index, track_id: self.track_ids[index] }),
            None => None,
        }
    }

    /// Makes entry `index` current, given the library's answer for its track,
    /// and returns that track.
    pub fn select(&mut self, index: usize, lookup: Result<Option<PlaybackTrack>, String>) -> (r:
        Result<PlaybackTrack, PlaybackQueueError>)
        requires
            old(self)@.wf(),
        ensures
            final(self)@.wf(),
            index >= old(self)@.track_ids.len() ==> r == Err::<PlaybackTrack, PlaybackQueueError>(
                PlaybackQueueError::IndexOutOfRange {
                    index,
                    len: old(self)@.track_ids.len() as usize,
                },
            ) && final(self)@ == old(self)@,
            index < old(self)@.track_ids.len() && !found(lookup) ==> r == Err::<
                PlaybackTrack,
                PlaybackQueueError,
            >(lookup_error(lookup, old(self)@.track_ids[index as int])) && final(self)@ == old(
                self,
            )@,
            index < old(self)@.track_ids.len() && found(lookup) ==> r == Ok::<
                PlaybackTrack,
                PlaybackQueueError,
            >(lookup->Ok_0->Some_0) && final(self)@ == selected(old(self)@, index),
    {
        if index >= self.track_ids.len() {
            return Err(PlaybackQueueError::IndexOutOfRange { index, len: self.track_ids.len() });
        }
        let track_id = self.track_ids[index];
        let track = match lookup {
            Ok(Some(track)) => track,
            Ok(None) => return Err(PlaybackQueueError::TrackNotFound { track_id }),
            Err(message) => return Err(PlaybackQueueError::Library(message)),
        };
        if let Some(previous) = self.current_index {
            let boundary = previous + 1 + self.queued_count;
            if index != previous {
                self.queued_count = if index > previous && index < boundary {
                    boundary - index - 1
                } else {
                    0
                };
            }
        }
        self.current_index = Some(index);
        Ok(track)
    }

    /// The current entry, or `Empty`.
    pub fn require_current(&self) -> (r: Result<usize, PlaybackQueueError>)
        ensures
            r == match self@.current_index {
                Some(c) => Ok::<usize, PlaybackQueueError>(c),
                None => Err(PlaybackQueueError::Empty),
            },
    {
        match self.current_index {
            Some(c) => Ok(c),
            None => Err(PlaybackQueueError::Empty),
        }
    }

    /// The entry "next" moves to.
    pub fn next_target(&self) -> (r: Result<Option<usize>, PlaybackQueueError>)
        ensures
            r == next_target_of(self@),
    {
        match self.current_index {
            None => Err(PlaybackQueueError::Empty),
            Some(c) => if c >= self.track_ids.len() || self.track_ids.len() - c <= 1 {
                Ok(None)
            } else {
                Ok(Some(c + 1))
            },
        }
    }

    /// The entry "previous" moves to.
    pub fn previous_target(&self) -> (r: Result<Option<usize>, PlaybackQueueError>)
        ensures
            r == previous_target_of(self@),
    {
        match self.current_index {
            None => Err(PlaybackQueueError::Empty),
            Some(c) => if c == 0 {
                Ok(None)
            } else {
                Ok(Some(c - 1))
            },
        }
    }

    /// The entry "advance and play" plays under the repeat mode.
    pub fn advance_target(&self) -> (r: Result<Option<usize>, PlaybackQueueError>)
        ensures
            r == advance_target_of(self@),
    {
        match self.repeat_mode {
            RepeatMode::Track => match self.current_index {
                None => Err(PlaybackQueueError::Empty),
                Some(c) => Ok(Some(c)),
            },
            RepeatMode::Off => self.next_target(),
            RepeatMode::Queue => self.wrapped_next(),
        }
    }

    fn wrapped_next(&self) -> (r: Result<Option<usize>, PlaybackQueueError>)
        ensures
            r == wrapped_next_of(self@),
    {
        match self.current_index {
            None => Err(PlaybackQueueError::Empty),
            Some(c) => if c < self.track_ids.len() && self.track_ids.len() - c > 1 {
                Ok(Some(c + 1))
            } else if self.track_ids.len() == 0 {
                Err(PlaybackQueueError::Empty)
            } else {
                Ok(Some(0))
            },
        }
    }

    /// What to do when the player reports `state`, and whether playback has
    /// reached the end of the current track.
    pub fn end_of_track_action(&self, state: PlaybackState, at_end: bool) -> (r: Result<
        EndOfTrackAction,
        PlaybackQueueError,
    >)
        ensures
            r == end_of_track_of(self@, state, at_end),
    {
        let c = match self.current_index {
            None => return Err(PlaybackQueueError::Empty),
            Some(c) => c,
        };
        if state != PlaybackState::Playing || !at_end {
            return Ok(EndOfTrackAction::Continue);
        }
        match self.repeat_mode {
            RepeatMode::Track => Ok(EndOfTrackAction::Play(c)),
            RepeatMode::Queue => match self.wrapped_next() {
                Ok(Some(i)) => Ok(EndOfTrackAction::Play(i)),
                Ok(None) => Ok(EndOfTrackAction::Stop),
                Err(e) => Err(e),
            },
            RepeatMode::Off => if c >= self.track_ids.len() || self.track_ids.len() - c <= 1 {
                Ok(EndOfTrackAction::Stop)
            } else {
                Ok(EndOfTrackAction::Play(c + 1))
            },
        }
    }
}

/// Adding a found track grows the queue by one and keeps it well formed. With
/// a current entry `c`, the track goes in right after the up-next segment, at
/// `c + 1 + queued_count`: the entries before that spot and after it are
/// unchanged, the current entry stays, and the up-next segment grows by one.
/// In an empty queue the track becomes the only entry and the current one.
pub proof fn lemma_add_to_queue_inserts_after_up_next(v: QueueView, id: i64)
    requires
        v.wf(),
        v.track_ids.len() < usize::MAX,
    ensures
        added(v, id).wf(),
        added(v, id).track_ids.len() == v.track_ids.len() + 1,
        added(v, id).repeat_mode == v.repeat_mode,
        v.current_index matches Some(c) ==> {
            let p = c + 1 + v.queued_count;
            &&& added(v, id).track_ids == v.track_ids.subrange(0, p) + seq![id]
                + v.track_ids.subrange(p, v.track_ids.len() as int)
            &&& added(v, id).current_index == Some(c)
            &&& added(v, id).queued_count == v.queued_count + 1
        },
        v.current_index is None ==> added(v, id).track_ids == seq![id] && added(v, id).current_index
            == Some(0usize) && added(v, id).queued_count == 0,
{
    match v.current_index {
        Some(c) => {
            let p = c + 1 + v.queued_count;
            assert(added(v, id).track_ids =~= v.track_ids.subrange(0, p) + seq![id]
                + v.track_ids.subrange(p, v.track_ids.len() as int));
        },
        None => {
            assert(added(v, id).track_ids =~= seq![id]);
        },
    }
}

/// "Play next" keeps a first-in, first-out up-next segment: two tracks added
/// in a row follow the current entry and the tracks added before them, in the
/// order they were added; every other entry and the current entry stay put.
pub proof fn lemma_added_tracks_play_in_order(v: QueueView, a: i64, b: i64)
    requires
        v.wf(),
        v.current_index is Some,
        v.track_ids.len() + 2 <= usize::MAX,
    ensures
        ({
            let w = added(added(v, a), b);
            let c = v.current_index->Some_0;
            let at = c + 1 + v.queued_count;
            &&& w.wf()
            &&& w.current_index == v.current_index
            &&& w.queued_count == v.queued_count + 2
            &&& w.track_ids.len() == v.track_ids.len() + 2
            &&& w.track_ids[at] == a
            &&& w.track_ids[at + 1] == b
            &&& w.track_ids.subrange(0, at) == v.track_ids.subrange(0, at)
            &&& w.track_ids.subrange(at + 2, w.track_ids.len() as int) == v.track_ids.subrange(
                at,
                v.track_ids.len() as int,
            )
        }),
{
    let c = v.current_index->Some_0;
    let at = c + 1 + v.queued_count;
    let w1 = added(v, a);
    let w = added(w1, b);
    assert(w1.track_ids == v.track_ids.insert(at, a));
    assert(w.track_ids == w1.track_ids.insert(at + 1, b));
    assert(w.track_ids.subrange(0, at) =~= v.track_ids.subrange(0, at));
    assert(w.track_ids.subrange(at + 2, w.track_ids.len() as int) =~= v.track_ids.subrange(
        at,
        v.track_ids.len() as int,
    ));
}

/// Adding to an empty queue makes the added track the current entry.
pub proof fn lemma_added_to_empty_becomes_current(v: QueueView, a: i64)
    requires
        v.wf(),
        v.current_index is None,
    ensures
        added(v, a).wf(),
        added(v, a).current_index == Some(0usize),
        added(v, a).track_ids == seq![a],
{
    assert(added(v, a).track_ids =~= seq![a]);
}

/// A successful reorder is a permutation of the queue: the same tracks, each
/// as often; the entries up to and including the current one are untouched,
/// so the current track stays current.
pub proof fn lemma_reorder_keeps_tracks(v: QueueView, start: usize, ids: Seq<i64>)
    requires
        v.wf(),
    ensures
        reorder_of(v, start, ids) matches Ok(w) ==> {
            &&& w.wf()
            &&& w.track_ids.to_multiset() == v.track_ids.to_multiset()
            &&& w.track_ids.len() == v.track_ids.len()
            &&& w.current_index == v.current_index
            &&& w.track_ids.subrange(0, start as int) == v.track_ids.subrange(0, start as int)
            &&& w.track_ids[v.current_index->Some_0 as int] == v.track_ids[v.current_index->Some_0 as int]
        },
{
    if let Ok(w) = reorder_of(v, start, ids) {
        let c = v.current_index->Some_0;
        let end = segment_end(start, ids.len());
        let len = v.track_ids.len() as int;
        let pre = v.track_ids.subrange(0, start as int);
        let seg = v.track_ids.subrange(start as int, end as int);
        let post = v.track_ids.subrange(end as int, len);
        vstd::seq_lib::to_multiset_len(seg);
        vstd::seq_lib::to_multiset_len(ids);
        assert(v.track_ids =~= pre + seg + post);
        vstd::seq_lib::lemma_multiset_commutative(pre + seg, post);
        vstd::seq_lib::lemma_multiset_commutative(pre, seg);
        vstd::seq_lib::lemma_multiset_commutative(pre + ids, post);
        vstd::seq_lib::lemma_multiset_commutative(pre, ids);
        assert(w.track_ids.subrange(0, start as int) =~= pre);
        assert(w.track_ids[c as int] == pre[c as int]);
    }
}

/// Selecting an entry makes it current and keeps the tracks. Selecting the
/// current entry keeps the up-next segment; moving forward inside it keeps the
/// part still ahead (the segment still ends where it did); any other move
/// ends it.
pub proof fn lemma_selected_entry_is_current(v: QueueView, index: usize)
    requires
        v.wf(),
        index < v.track_ids.len(),
    ensures
        ({
            let w = selected(v, index);
            let c = v.current_index->Some_0;
            &&& w.wf()
            &&& w.current_index == Some(index)
            &&& w.track_ids == v.track_ids
            &&& w.repeat_mode == v.repeat_mode
            &&& (index == c ==> w.queued_count == v.queued_count)
            &&& (c < index < c + 1 + v.queued_count ==> index + 1 + w.queued_count == c + 1
                + v.queued_count)
            &&& (index != c && !(c < index < c + 1 + v.queued_count) ==> w.queued_count == 0)
        }),
{
}

/// Next and previous never wrap around: they move one entry, or report that
/// there is none at that end of the queue.
pub proof fn lemma_next_and_previous_do_not_wrap(v: QueueView)
    requires
        v.wf(),
        v.current_index is Some,
    ensures
        ({
            let c = v.current_index->Some_0;
            &&& next_target_of(v) == if c + 1 == v.track_ids.len() {
                Ok::<Option<usize>, PlaybackQueueError>(None)
            } else {
                Ok(Some((c + 1) as usize))
            }
            &&& previous_target_of(v) == if c == 0 {
                Ok::<Option<usize>, PlaybackQueueError>(None)
            } else {
                Ok(Some((c - 1) as usize))
            }
        }),
{
}

/// Under repeat-queue, advancing walks the queue cyclically; under
/// repeat-track it replays the current entry; with repeat off it stops at
/// the last entry.
pub proof fn lemma_advance_follows_repeat_mode(v: QueueView)
    requires
        v.wf(),
        v.current_index is Some,
    ensures
        ({
            let c = v.current_index->Some_0;
            let len = v.track_ids.len();
            &&& v.repeat_mode is Queue ==> advance_target_of(v) == Ok::<
                Option<usize>,
                PlaybackQueueError,
            >(Some(((c + 1) % (len as int)) as usize))
            &&& v.repeat_mode is Track ==> advance_target_of(v) == Ok::<
                Option<usize>,
                PlaybackQueueError,
            >(Some(c))
            &&& v.repeat_mode is Off ==> advance_target_of(v) == next_target_of(v)
        }),
{
    let c = v.current_index->Some_0;
    let len = v.track_ids.len() as int;
    let n = c + 1;
    if n < len {
        assert(n % len == n) by (nonlinear_arith)
            requires
                0 <= n < len,
        ;
    } else {
        assert(n == len);
        assert(n % len == 0) by (nonlinear_arith)
            requires
                n == len,
                len > 0,
        ;
    }
}

/// When a playing track ends, repeat-track replays it, repeat-queue moves on
/// cyclically, and repeat-off moves on until the last entry, then stops.
/// Nothing happens while not playing or before the end.
pub proof fn lemma_end_of_track_follows_repeat_mode(v: QueueView, state: PlaybackState, at_end: bool)
    requires
        v.wf(),
        v.current_index is Some,
    ensures
        ({
            let c = v.current_index->Some_0;
            let len = v.track_ids.len();
            &&& !(state is Playing && at_end) ==> end_of_track_of(v, state, at_end) == Ok::<
                EndOfTrackAction,
                PlaybackQueueError,
            >(EndOfTrackAction::Continue)
            &&& state is Playing && at_end && v.repeat_mode is Track ==> end_of_track_of(
                v,
                state,
                at_end,
            ) == Ok::<EndOfTrackAction, PlaybackQueueError>(EndOfTrackAction::Play(c))
            &&& state is Playing && at_end && v.repeat_mode is Queue ==> end_of_track_of(
                v,
                state,
                at_end,
            ) == Ok::<EndOfTrackAction, PlaybackQueueError>(
                EndOfTrackAction::Play(((c + 1) % (len as int)) as usize),
            )
            &&& state is Playing && at_end && v.repeat_mode is Off ==> end_of_track_of(
                v,
                state,
                at_end,
            ) == if c + 1 == len {
                Ok::<EndOfTrackAction, PlaybackQueueError>(EndOfTrackAction::Stop)
            } else {
                Ok(EndOfTrackAction::Play((c + 1) as usize))
            }
        }),
{
    lemma_advance_follows_repeat_mode(v);
}

} // verus!
