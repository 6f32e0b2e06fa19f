use offline_player::playback_control::PlaybackState;
use offline_player::playback_model::PlaybackTrack;
use offline_player::playback_queue::{
    EndOfTrackAction, PlaybackQueue, PlaybackQueueError, QueuePosition, RepeatMode,
};

fn track(id: i64) -> PlaybackTrack {
    PlaybackTrack {
        track_id: id,
        asset_id: 1,
        path: format!("/music/{id}.flac"),
        sample_rate: 44_100,
        channels: 2,
        bits_per_sample: 16,
        start_frame: 0,
        frame_count: Some(100),
    }
}

fn found(ids: &[i64]) -> Vec<Result<Option<PlaybackTrack>, String>> {
    ids.iter().map(|&id| Ok(Some(track(id)))).collect()
}

fn queue_of(ids: &[i64]) -> PlaybackQueue {
    let mut queue = PlaybackQueue::new();
    queue.set_queue(ids.to_vec(), &found(ids)).unwrap();
    queue
}

#[test]
fn starts_empty() {
    let queue = PlaybackQueue::new();
    assert!(queue.is_empty());
    assert_eq!(queue.len(), 0);
    assert_eq!(queue.current_index(), None);
    assert_eq!(queue.current_position(), None);
    assert_eq!(queue.repeat_mode(), RepeatMode::Off);
}

#[test]
fn clear_resets_queue() {
    let mut queue = queue_of(&[1, 2, 3]);
    queue.select(1, Ok(Some(track(2)))).unwrap();

    queue.clear();

    assert!(queue.is_empty());
    assert_eq!(queue.current_index(), None);
}

#[test]
fn repeat_mode_can_be_changed() {
    let mut queue = PlaybackQueue::new();

    queue.set_repeat_mode(RepeatMode::Track);
    assert_eq!(queue.repeat_mode(), RepeatMode::Track);

    queue.set_repeat_mode(RepeatMode::Queue);
    assert_eq!(queue.repeat_mode(), RepeatMode::Queue);

    queue.set_repeat_mode(RepeatMode::Off);
    assert_eq!(queue.repeat_mode(), RepeatMode::Off);
}

#[test]
fn empty_queue_next_returns_empty_error() {
    let queue = PlaybackQueue::new();
    let error = queue.next_target().unwrap_err();
    assert!(matches!(error, PlaybackQueueError::Empty));
}

#[test]
fn empty_queue_previous_returns_empty_error() {
    let queue = PlaybackQueue::new();
    let error = queue.previous_target().unwrap_err();
    assert!(matches!(error, PlaybackQueueError::Empty));
}

#[test]
fn empty_queue_advance_if_at_end_returns_empty_error() {
    let queue = PlaybackQueue::new();
    let error = queue.end_of_track_action(PlaybackState::Idle, false).unwrap_err();
    assert!(matches!(error, PlaybackQueueError::Empty));
}

#[test]
fn select_rejects_out_of_range_index() {
    let mut queue = queue_of(&[1, 2]);
    let error = queue.select(2, Ok(Some(track(3)))).unwrap_err();
    assert!(matches!(error, PlaybackQueueError::IndexOutOfRange { index: 2, len: 2 }));
}

#[test]
fn next_at_end_does_not_wrap() {
    let mut queue = queue_of(&[1, 2]);
    queue.select(1, Ok(Some(track(2)))).unwrap();

    let result = queue.next_target().unwrap();

    assert_eq!(result, None);
    assert_eq!(queue.current_index(), Some(1));
}

#[test]
fn previous_at_start_does_not_wrap() {
    let queue = queue_of(&[1, 2]);
    assert_eq!(queue.current_index(), Some(0));

    let result = queue.previous_target().unwrap();

    assert_eq!(result, None);
    assert_eq!(queue.current_index(), Some(0));
}

#[test]
fn set_empty_queue_clears_position() {
    let mut queue = queue_of(&[1, 2]);
    queue.select(1, Ok(Some(track(2)))).unwrap();

    queue.set_queue(Vec::new(), &[]).unwrap();

    assert!(queue.is_empty());
    assert_eq!(queue.current_index(), None);
}

#[test]
fn set_queue_reports_first_missing_track_and_keeps_queue() {
    let mut queue = queue_of(&[7]);
    let lookups = vec![Ok(Some(track(1))), Ok(None), Err("db down".to_string())];
    assert_eq!(
        queue.set_queue(vec![1, 2, 3], &lookups),
        Err(PlaybackQueueError::TrackNotFound { track_id: 2 })
    );
    assert_eq!(queue.track_ids(), &[7]);
    let lookups = vec![Err("db down".to_string()), Ok(None)];
    assert_eq!(queue.set_queue(vec![1, 2], &lookups), Err(PlaybackQueueError::Library("db down".to_string())));
    assert_eq!(queue.current_position(), Some(QueuePosition { index: 0, track_id: 7 }));
}

#[test]
fn added_tracks_play_next_in_the_order_added() {
    let mut queue = queue_of(&[1, 2, 3]);
    assert_eq!(queue.add_to_queue(10, Ok(Some(track(10)))), Ok(4));
    assert_eq!(queue.add_to_queue(11, Ok(Some(track(11)))), Ok(5));
    assert_eq!(queue.track_ids(), &[1, 10, 11, 2, 3]);
    assert_eq!(queue.queued_count(), 2);
    assert_eq!(queue.current_index(), Some(0));
}

#[test]
fn add_to_empty_queue_makes_it_current() {
    let mut queue = PlaybackQueue::new();
    assert_eq!(queue.add_to_queue(5, Ok(Some(track(5)))), Ok(1));
    assert_eq!(queue.current_position(), Some(QueuePosition { index: 0, track_id: 5 }));
    assert_eq!(queue.queued_count(), 0);
}

#[test]
fn add_unknown_track_is_rejected() {
    let mut queue = queue_of(&[1]);
    assert_eq!(queue.add_to_queue(9, Ok(None)), Err(PlaybackQueueError::TrackNotFound { track_id: 9 }));
    assert_eq!(queue.add_to_queue(9, Err("io".to_string())), Err(PlaybackQueueError::Library("io".to_string())));
    assert_eq!(queue.len(), 1);
}

#[test]
fn selecting_inside_up_next_keeps_the_rest_of_it() {
    let mut queue = queue_of(&[1, 2, 3]);
    queue.add_to_queue(10, Ok(Some(track(10)))).unwrap();
    queue.add_to_queue(11, Ok(Some(track(11)))).unwrap();
    // [1, 10, 11, 2, 3], current 0, up next 2
    let selected = queue.select(1, Ok(Some(track(10)))).unwrap();
    assert_eq!(selected.track_id, 10);
    assert_eq!(queue.queued_count(), 1);
    queue.select(4, Ok(Some(track(3)))).unwrap();
    assert_eq!(queue.queued_count(), 0);
}

#[test]
fn select_reports_lookup_failures() {
    let mut queue = queue_of(&[1, 2]);
    assert_eq!(queue.select(1, Ok(None)), Err(PlaybackQueueError::TrackNotFound { track_id: 2 }));
    assert_eq!(queue.select(1, Err("x".to_string())), Err(PlaybackQueueError::Library("x".to_string())));
    assert_eq!(queue.current_index(), Some(0));
}

#[test]
fn reorder_keeps_tracks_and_current_entry() {
    let mut queue = queue_of(&[1, 2, 3, 4]);
    assert_eq!(queue.reorder_segment(1, vec![4, 2, 3]), Ok(()));
    assert_eq!(queue.track_ids(), &[1, 4, 2, 3]);
    assert_eq!(queue.current_index(), Some(0));
}

#[test]
fn reorder_rejects_other_tracks_and_bad_ranges() {
    let mut queue = queue_of(&[1, 2, 3, 4]);
    assert_eq!(queue.reorder_segment(1, vec![2, 2, 3]), Err(PlaybackQueueError::InvalidReorder));
    assert_eq!(
        queue.reorder_segment(0, vec![1, 2]),
        Err(PlaybackQueueError::IndexOutOfRange { index: 2, len: 4 })
    );
    assert_eq!(
        queue.reorder_segment(3, vec![4, 5]),
        Err(PlaybackQueueError::IndexOutOfRange { index: 5, len: 4 })
    );
    assert_eq!(PlaybackQueue::new().reorder_segment(1, vec![]), Err(PlaybackQueueError::Empty));
    assert_eq!(queue.track_ids(), &[1, 2, 3, 4]);
}

#[test]
fn reordering_whole_rest_ends_up_next_segment() {
    let mut queue = queue_of(&[1, 2, 3]);
    queue.add_to_queue(10, Ok(Some(track(10)))).unwrap();
    assert_eq!(queue.queued_count(), 1);
    queue.reorder_segment(1, vec![3, 2, 10]).unwrap();
    assert_eq!(queue.queued_count(), 0);
    assert_eq!(queue.track_ids(), &[1, 3, 2, 10]);
}

#[test]
fn advance_follows_repeat_mode() {
    let mut queue = queue_of(&[1, 2, 3]);
    queue.select(2, Ok(Some(track(3)))).unwrap();
    assert_eq!(queue.advance_target(), Ok(None));
    queue.set_repeat_mode(RepeatMode::Queue);
    assert_eq!(queue.advance_target(), Ok(Some(0)));
    queue.set_repeat_mode(RepeatMode::Track);
    assert_eq!(queue.advance_target(), Ok(Some(2)));
    queue.select(0, Ok(Some(track(1)))).unwrap();
    queue.set_repeat_mode(RepeatMode::Off);
    assert_eq!(queue.advance_target(), Ok(Some(1)));
    assert_eq!(queue.next_target(), Ok(Some(1)));
}

#[test]
fn end_of_track_actions() {
    let mut queue = queue_of(&[1, 2]);
    assert_eq!(queue.end_of_track_action(PlaybackState::Paused, true), Ok(EndOfTrackAction::Continue));
    assert_eq!(queue.end_of_track_action(PlaybackState::Playing, false), Ok(EndOfTrackAction::Continue));
    assert_eq!(queue.end_of_track_action(PlaybackState::Playing, true), Ok(EndOfTrackAction::Play(1)));
    queue.select(1, Ok(Some(track(2)))).unwrap();
    assert_eq!(queue.end_of_track_action(PlaybackState::Playing, true), Ok(EndOfTrackAction::Stop));
    queue.set_repeat_mode(RepeatMode::Queue);
    assert_eq!(queue.end_of_track_action(PlaybackState::Playing, true), Ok(EndOfTrackAction::Play(0)));
    queue.set_repeat_mode(RepeatMode::Track);
    assert_eq!(queue.end_of_track_action(PlaybackState::Playing, true), Ok(EndOfTrackAction::Play(1)));
}

#[test]
fn track_id_at_and_require_current() {
    let queue = queue_of(&[4, 5]);
    assert_eq!(queue.track_id_at(1), Some(5));
    assert_eq!(queue.track_id_at(2), None);
    assert_eq!(queue.require_current(), Ok(0));
    assert_eq!(PlaybackQueue::new().require_current(), Err(PlaybackQueueError::Empty));
    assert_eq!(RepeatMode::default(), RepeatMode::Off);
}
