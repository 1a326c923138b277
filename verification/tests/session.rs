use playback_core::command::song::{
    join_plan, non_bot_count, queue_internal, select_request, should_auto_leave, JoinAction,
    SongCommandResult, SongError,
};
use playback_core::data::song::{Now, Request, RequestState, Source};
use playback_core::data::{DeleteOutcome, Guild, JoinOutcome};

fn request(message_id: u64) -> Request {
    Request::new(
        Source::Chat(String::from("some song")),
        10,
        20,
        30,
        message_id,
        Some(String::from("en-US")),
    )
}

#[test]
fn enqueue_while_idle_triggers_immediate_play() {
    let mut g = Guild::new(10);
    let r1 = request(100);
    // Enqueue into the idle, empty session: the session itself answers
    // that playback starts now.
    let outcome = queue_internal(&mut g, r1);
    assert!(matches!(outcome, SongCommandResult::Play));
    // The advance that follows needs no external trigger: the snapshot of
    // the single queued request selects it, and the play steps put it in
    // the slot.
    let snapshot = vec![(100u64, 0u64)];
    let chosen = select_request(&snapshot).expect("one queued request");
    assert_eq!(chosen, 100);
    let taken = g.song_queue_take(chosen).expect("still queued");
    assert_eq!(taken.message_id, 100);
    g.song_now_wait(taken);
    g.song_now_play(77);
    match &g.song_now {
        Some(Now::Playing { track, request }) => {
            assert_eq!(*track, 77);
            assert_eq!(request.message_id, 100);
            assert_eq!(request.state, RequestState::Playing);
        }
        _ => panic!("expected the playing slot"),
    }
    assert_eq!(g.song_queue.len(), 0);
}

#[test]
fn enqueue_behind_others_waits() {
    let mut g = Guild::new(10);
    assert!(matches!(queue_internal(&mut g, request(1)), SongCommandResult::Play));
    assert!(matches!(queue_internal(&mut g, request(2)), SongCommandResult::Queue));
    assert_eq!(g.song_queue.len(), 2);
}

#[test]
fn enqueue_with_occupied_slot_waits() {
    let mut g = Guild::new(10);
    g.song_now_wait(request(1));
    assert!(matches!(queue_internal(&mut g, request(2)), SongCommandResult::Queue));
}

#[test]
fn selection_tie_break_prefers_first_reached_maximum() {
    // R1 engagement 0, R2 engagement 3, R3 engagement 3: R2 wins.
    let snapshot = vec![(1u64, 0u64), (2u64, 3u64), (3u64, 3u64)];
    assert_eq!(select_request(&snapshot), Some(2));
}

#[test]
fn selection_prefers_highest_engagement() {
    let snapshot = vec![(1u64, 2u64), (2u64, 5u64), (3u64, 4u64)];
    assert_eq!(select_request(&snapshot), Some(2));
    assert_eq!(select_request(&vec![]), None);
}

#[test]
fn take_revalidates_the_chosen_request() {
    let mut g = Guild::new(10);
    queue_internal(&mut g, request(1));
    // The chosen request vanished between the snapshot and the removal:
    // nothing is removed and the selection must be retried.
    assert!(g.song_queue_take(99).is_none());
    assert_eq!(g.song_queue.len(), 1);
    assert!(g.song_queue_take(1).is_some());
    assert_eq!(g.song_queue.len(), 0);
}

#[test]
fn advance_on_empty_queue_stays_idle() {
    let mut g = Guild::new(10);
    assert_eq!(select_request(&vec![]), None);
    assert!(g.song_queue_take(1).is_none());
    assert!(g.song_now.is_none());
    assert_eq!(g.song_queue.len(), 0);
}

#[test]
fn disconnect_drains_slot_and_queue() {
    let mut g = Guild::new(10);
    let r1 = request(1);
    g.song_now_wait(r1);
    g.song_now_play(7);
    queue_internal(&mut g, request(2));
    queue_internal(&mut g, request(3));
    let (current, drained) = g.voice_disconnected();
    assert!(g.song_now.is_none());
    assert_eq!(g.song_queue.len(), 0);
    assert!(g.voice.is_none());
    let current = current.expect("the slot held a request");
    assert_eq!(current.message_id, 1);
    assert_eq!(current.state, RequestState::Canceled);
    assert_eq!(drained.len(), 2);
    assert_eq!(drained[0].message_id, 2);
    assert_eq!(drained[1].message_id, 3);
    assert!(drained.iter().all(|r| r.state == RequestState::Canceled));
}

#[test]
fn completion_marks_the_request_done() {
    let mut g = Guild::new(10);
    g.song_now_wait(request(1));
    g.song_now_play(7);
    let done = g.song_now_complete().expect("a playing request");
    assert_eq!(done.state, RequestState::Done);
    assert!(g.song_now.is_none());
    assert!(g.song_now_complete().is_none());
}

#[test]
fn cancellation_marks_the_request_canceled() {
    let mut g = Guild::new(10);
    g.song_now_wait(request(1));
    let canceled = g.song_now_cancel().expect("a waiting request");
    assert_eq!(canceled.state, RequestState::Canceled);
    assert!(g.song_now.is_none());
    assert!(g.song_now_cancel().is_none());
}

#[test]
fn deleted_message_pulls_its_request() {
    let mut g = Guild::new(10);
    g.song_now_wait(request(1));
    queue_internal(&mut g, request(2));
    assert_eq!(g.song_message_deleted(2), DeleteOutcome::Removed);
    assert_eq!(g.song_queue.len(), 0);
    assert_eq!(g.song_message_deleted(1), DeleteOutcome::AdvanceCurrent);
    assert!(g.song_now.is_some());
    assert_eq!(g.song_message_deleted(9), DeleteOutcome::NotFound);
}

#[test]
fn join_is_idempotent_on_the_same_channel() {
    let mut g = Guild::new(10);
    assert_eq!(g.join(5), JoinOutcome::Joined);
    assert_eq!(g.join(5), JoinOutcome::AlreadyConnected);
    assert_eq!(g.join(6), JoinOutcome::Joined);
    assert_eq!(g.voice, Some(6));
    g.leave();
    assert_eq!(g.voice, None);
}

#[test]
fn join_plan_decides_reuse_connect_or_error() {
    assert_eq!(join_plan(None, Some(5)), Err(SongError::VoiceChannel));
    assert_eq!(join_plan(Some(5), Some(5)), Ok(JoinAction::Reuse));
    assert_eq!(join_plan(Some(6), Some(5)), Ok(JoinAction::Connect(6)));
    assert_eq!(join_plan(Some(6), None), Ok(JoinAction::Connect(6)));
}

#[test]
fn auto_leave_when_no_person_remains() {
    assert_eq!(non_bot_count(&vec![true, false, true, false]), 2);
    assert_eq!(non_bot_count(&vec![true, true]), 0);
    assert!(should_auto_leave(Some(5), 5, 0));
    assert!(!should_auto_leave(Some(5), 5, 1));
    assert!(!should_auto_leave(Some(4), 5, 0));
    assert!(!should_auto_leave(None, 5, 0));
}

#[test]
fn song_error_messages() {
    assert_eq!(
        SongError::Guild.message(),
        "Song feature requires guild to use voice chat."
    );
    assert_eq!(
        SongError::VoiceChannel.message(),
        "Cannot find voice channel from request."
    );
    assert_eq!(
        SongError::VoiceConnection.message(),
        "Bot is not connected to the voice channel."
    );
}
