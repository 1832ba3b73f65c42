use playout::runloop::{
    error_event, is_frame_gap, stdin_command, FrameTap, Run, RunEvent, StdinCommand,
    FRAME_INTERVAL_NS, GAP_THRESHOLD_NS,
};

#[test]
fn frame_gap_detection() {
    let interval = 1_000_000_000u64 / 60; // 16.67ms
    let threshold = interval * 3 / 2;
    assert!(!is_frame_gap(u64::MAX, 12345, threshold)); // first buffer
    assert!(!is_frame_gap(0, interval, threshold)); // steady 60fps step
    // Either side of the threshold: the widest step that is still not a gap,
    // and the narrowest one that is. A drifting comparison shows up here
    // before it shows up as a miscounted stall on the dashboard.
    assert!(!is_frame_gap(0, threshold, threshold));
    assert!(is_frame_gap(0, threshold + 1, threshold));
    assert!(is_frame_gap(0, interval * 2, threshold)); // a frame missing
    assert!(!is_frame_gap(interval * 5, interval * 4, threshold)); // non-increasing timestamp
    // Late frames near the u64 ceiling must not wrap into a false negative.
    assert!(!is_frame_gap(u64::MAX - 1, u64::MAX, threshold));
}

#[test]
fn the_gap_threshold_is_one_and_a_half_intervals() {
    assert_eq!(FRAME_INTERVAL_NS, 1_000_000_000 / 60);
    assert_eq!(GAP_THRESHOLD_NS, FRAME_INTERVAL_NS * 3 / 2);
}

#[test]
fn the_tap_counts_gaps_between_stamped_frames() {
    let mut tap = FrameTap::new();
    assert!(!tap.on_frame(Some(500)));
    assert!(!tap.on_frame(Some(500 + FRAME_INTERVAL_NS)));
    // A frame without a timestamp neither is a gap nor hides one.
    assert!(!tap.on_frame(None));
    assert!(tap.on_frame(Some(500 + 3 * FRAME_INTERVAL_NS)));
    assert!(!tap.on_frame(Some(500 + 2 * FRAME_INTERVAL_NS)));
    assert!(!tap.on_frame(Some(500 + 2 * FRAME_INTERVAL_NS + GAP_THRESHOLD_NS)));
}

#[test]
fn operator_commands_are_single_letters() {
    assert_eq!(stdin_command("j"), StdinCommand::Jump);
    assert_eq!(stdin_command("  q\t"), StdinCommand::Quit);
    assert_eq!(stdin_command("jump"), StdinCommand::Nothing);
    assert_eq!(stdin_command(""), StdinCommand::Nothing);
    assert_eq!(stdin_command("J"), StdinCommand::Nothing);
}

#[test]
fn only_failures_exit_non_zero() {
    let after = |events: &[RunEvent]| {
        let mut run = Run::new();
        let quits: Vec<bool> = events.iter().map(|e| run.on_event(*e)).collect();
        (run.failed, quits)
    };
    assert_eq!(
        after(&[RunEvent::AbsorbedError, RunEvent::Signal]),
        (false, vec![false, true])
    );
    assert_eq!(after(&[RunEvent::OperatorQuit]), (false, vec![true]));
    assert_eq!(after(&[RunEvent::PublishDead]), (true, vec![true]));
    assert_eq!(after(&[RunEvent::EndOfStream]), (true, vec![true]));
    assert_eq!(
        after(&[RunEvent::PipelineError, RunEvent::Signal]),
        (true, vec![true, true])
    );
}

#[test]
fn bus_errors_fail_the_run_unless_absorbed() {
    assert_eq!(error_event(true, false), RunEvent::AbsorbedError);
    assert_eq!(error_event(false, true), RunEvent::AbsorbedError);
    assert_eq!(error_event(false, false), RunEvent::PipelineError);
}
