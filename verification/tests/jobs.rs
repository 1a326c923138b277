use playback_core::rvc::{
    worker_decide, RVCCommand, RVCProcessor, RVCProcessorQueue, RVCProcessorResult,
    RVCProcessorState, WorkerAction,
};

fn command() -> RVCCommand {
    RVCCommand {
        working_dir: String::from("temp/rvc/run1"),
        source: String::from("https://example.test/a"),
        model: String::from("voice_a"),
        pitch: 2,
        export_mp3: false,
    }
}

#[test]
fn fresh_job_waits_with_its_command() {
    let p = RVCProcessor::new(String::from("temp/rvc/run1"), command());
    assert_eq!(p.working_dir, "temp/rvc/run1");
    assert!(matches!(p.state, RVCProcessorState::Wait(_)));
    assert!(p.start_command().is_some());
    assert!(p.result().is_none());
}

#[test]
fn run_spawn_success_then_completion_good() {
    let mut p = RVCProcessor::new(String::from("temp/rvc/run1"), command());
    let started = p.run(Some(11));
    assert_eq!(started, Some(11));
    assert!(matches!(p.state, RVCProcessorState::Running(11)));
    p.completed(true);
    assert_eq!(p.result(), Some(RVCProcessorResult::Good));
}

#[test]
fn run_spawn_failure_completes_error() {
    let mut p = RVCProcessor::new(String::from("temp/rvc/run1"), command());
    let started = p.run(None);
    assert_eq!(started, None);
    assert_eq!(p.result(), Some(RVCProcessorResult::Error));
}

#[test]
fn nonzero_exit_completes_error() {
    let mut p = RVCProcessor::new(String::from("temp/rvc/run1"), command());
    p.run(Some(3));
    p.completed(false);
    assert_eq!(p.result(), Some(RVCProcessorResult::Error));
}

#[test]
fn cancel_twice_is_idempotent() {
    let mut p = RVCProcessor::new(String::from("temp/rvc/run1"), command());
    p.run(Some(5));
    let kill_first = p.cancel();
    assert_eq!(kill_first, Some(5));
    assert_eq!(p.result(), Some(RVCProcessorResult::Canceled));
    let kill_second = p.cancel();
    assert_eq!(kill_second, None);
    assert_eq!(p.result(), Some(RVCProcessorResult::Canceled));
}

#[test]
fn cancel_before_start_kills_nothing() {
    let mut p = RVCProcessor::new(String::from("temp/rvc/run1"), command());
    let kill = p.cancel();
    assert_eq!(kill, None);
    assert_eq!(p.result(), Some(RVCProcessorResult::Canceled));
}

#[test]
fn first_writer_wins_on_the_terminal_result() {
    // Cancellation wrote first: the late natural completion changes nothing.
    let mut p = RVCProcessor::new(String::from("temp/rvc/run1"), command());
    p.run(Some(7));
    p.cancel();
    p.completed(true);
    assert_eq!(p.result(), Some(RVCProcessorResult::Canceled));

    // Natural completion wrote first: the late cancellation changes nothing.
    let mut q = RVCProcessor::new(String::from("temp/rvc/run2"), command());
    q.run(Some(8));
    q.completed(true);
    let kill = q.cancel();
    assert_eq!(kill, None);
    assert_eq!(q.result(), Some(RVCProcessorResult::Good));
}

#[test]
fn run_after_completion_is_a_noop_and_spawns_nothing() {
    let mut p = RVCProcessor::new(String::from("temp/rvc/run1"), command());
    p.run(Some(9));
    p.completed(true);
    let started = p.run(Some(10));
    assert_eq!(started, None);
    assert_eq!(p.result(), Some(RVCProcessorResult::Good));
}

#[test]
fn canceled_before_worker_run_never_starts() {
    let mut p = RVCProcessor::new(String::from("temp/rvc/run1"), command());
    p.cancel();
    assert_eq!(worker_decide(Some(&p)), WorkerAction::Skip);
    let started = p.run(Some(12));
    assert_eq!(started, None);
    assert_eq!(p.result(), Some(RVCProcessorResult::Canceled));
}

#[test]
fn abandoned_entry_is_skipped_without_a_spawn() {
    assert_eq!(worker_decide(None), WorkerAction::Skip);
}

#[test]
fn waiting_job_is_spawned() {
    let p = RVCProcessor::new(String::from("temp/rvc/run1"), command());
    assert_eq!(worker_decide(Some(&p)), WorkerAction::Spawn);
}

#[test]
fn queue_is_first_in_first_out() {
    let mut q = RVCProcessorQueue::new();
    assert_eq!(q.take_next(), None);
    q.queue(1);
    q.queue(2);
    q.queue(3);
    assert_eq!(q.take_next(), Some(1));
    assert_eq!(q.take_next(), Some(2));
    q.queue(4);
    assert_eq!(q.take_next(), Some(3));
    assert_eq!(q.take_next(), Some(4));
    assert_eq!(q.take_next(), None);
}

#[test]
fn command_argument_vector_round_trips() {
    let c = RVCCommand {
        working_dir: String::from("temp/rvc/x"),
        source: String::from("https://example.test/song"),
        model: String::from("voice_b"),
        pitch: -4,
        export_mp3: true,
    };
    let args = c.args();
    assert_eq!(args.len(), 5);
    assert_eq!(args[0], "temp/rvc/x");
    assert_eq!(args[1], "https://example.test/song");
    assert_eq!(args[2], "voice_b");
    assert_eq!(args[3], "-4");
    assert_eq!(args[4], "true");
    let back = RVCCommand::parse_args(&args).expect("five rendered arguments parse");
    assert_eq!(back.working_dir, c.working_dir);
    assert_eq!(back.source, c.source);
    assert_eq!(back.model, c.model);
    assert_eq!(back.pitch, c.pitch);
    assert_eq!(back.export_mp3, c.export_mp3);
}

#[test]
fn short_argument_vectors_are_rejected() {
    let args = vec![String::from("a"), String::from("b")];
    assert!(RVCCommand::parse_args(&args).is_none());
    let bad_pitch = vec![
        String::from("d"),
        String::from("s"),
        String::from("m"),
        String::from("two"),
        String::from("false"),
    ];
    assert!(RVCCommand::parse_args(&bad_pitch).is_none());
    let bad_flag = vec![
        String::from("d"),
        String::from("s"),
        String::from("m"),
        String::from("0"),
        String::from("yes"),
    ];
    assert!(RVCCommand::parse_args(&bad_flag).is_none());
}
