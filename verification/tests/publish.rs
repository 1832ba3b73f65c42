use playout::elements::{
    make_encode_branch, make_fakesink_branch, make_normaliser, make_window_branch, Element,
    PropertyValue,
};
use playout::publish::{
    AcquirerStep, BootStep, GapClock, Output, Slot, SwapResult, RETRY_INTERVAL_MS,
};

const FREE: Option<&str> = Some("RTSP/1.0 404 Not Found");
const HELD: Option<&str> = Some("RTSP/1.0 200 OK");

fn empty_slot() -> Output {
    Output::new("passthrough".to_string(), "rtsp://h/p".to_string())
}

fn factories(elements: &[Element]) -> Vec<&str> {
    elements.iter().map(|e| e.factory.as_str()).collect()
}

#[test]
fn boot_publishes_only_to_a_free_path() {
    assert_eq!(Output::boot_step(FREE), BootStep::AttachPublish);
    assert_eq!(Output::boot_step(HELD), BootStep::AttachFakesink);
    assert_eq!(Output::boot_step(None), BootStep::AttachFakesink);
}

#[test]
fn the_acquirer_takes_the_path_when_it_frees() {
    let mut output = empty_slot();
    assert!(output.attach_fakesink(SwapResult::Started));
    assert_eq!(output.acquirer_next(), AcquirerStep::PollAgain);
    assert_eq!(output.acquirer_probed(HELD), AcquirerStep::PollAgain);
    assert_eq!(output.acquirer_probed(None), AcquirerStep::PollAgain);
    assert_eq!(output.acquirer_probed(FREE), AcquirerStep::AttachPublish);
    assert_eq!(output.acquirer_attached(SwapResult::Started), AcquirerStep::Park);
    assert_eq!(output.slot, Slot::Publish);
    assert!(output.publishing);
    assert_eq!(output.acquirer_next(), AcquirerStep::Park);
    assert_eq!(RETRY_INTERVAL_MS, 500);
}

#[test]
fn a_failed_acquire_falls_back() {
    let mut output = empty_slot();
    output.attach_fakesink(SwapResult::Started);
    assert_eq!(output.acquirer_attached(SwapResult::NotStarted), AcquirerStep::AttachFakesink);
    assert_eq!(output.slot, Slot::Publish);
    assert!(!output.publishing);
    assert_eq!(output.acquirer_fell_back(SwapResult::Started), AcquirerStep::PollAgain);
    assert_eq!(output.slot, Slot::Fakesink);
    assert_eq!(output.acquirer_fell_back(SwapResult::NotWired), AcquirerStep::Stop);
    assert_eq!(output.slot, Slot::Empty);
}

#[test]
fn a_failed_publish_goes_map_only() {
    let mut output = empty_slot();
    assert!(output.attach_publish(SwapResult::Started));
    // Not the slot's error.
    assert!(!output.on_error(None));
    assert!(output.publishing);
    assert!(output.on_error(Some(SwapResult::Started)));
    assert!(!output.publishing);
    assert_eq!(output.slot, Slot::Fakesink);
    // Nothing is left to hold the pipeline up.
    assert!(!output.on_error(Some(SwapResult::NotMade)));
    assert_eq!(output.slot, Slot::Fakesink);
}

#[test]
fn the_publish_branch_follows_the_encoder() {
    let passthrough = make_encode_branch("passthrough", "rtsp://h/p");
    assert_eq!(factories(&passthrough), ["queue", "h264parse", "rtspclientsink"]);
    assert!(matches!(
        &passthrough[2].properties[0].value,
        PropertyValue::Text(url) if url == "rtsp://h/p"
    ));
    assert_eq!(passthrough[2].properties[1].name, "protocols");
    assert!(matches!(
        &passthrough[2].properties[1].value,
        PropertyValue::Nick(nick) if nick == "tcp"
    ));
    assert_eq!(passthrough[1].properties[0].name, "config-interval");
    assert!(matches!(passthrough[1].properties[0].value, PropertyValue::Int(-1)));
    let x264 = make_encode_branch("x264enc", "rtsp://h/p");
    assert_eq!(factories(&x264), ["queue", "x264enc", "h264parse", "rtspclientsink"]);
    let names: Vec<&str> = x264[1].properties.iter().map(|p| p.name.as_str()).collect();
    assert_eq!(names, ["bitrate", "key-int-max", "speed-preset"]);
    let other = make_encode_branch("vah264enc", "rtsp://h/p");
    assert_eq!(factories(&other), ["queue", "vah264enc", "h264parse", "rtspclientsink"]);
    assert!(other[1].properties.is_empty());
}

#[test]
fn the_other_branches_are_fixed() {
    let swallow = make_fakesink_branch();
    assert_eq!(factories(&swallow), ["queue", "fakesink"]);
    assert!(matches!(swallow[1].properties[0].value, PropertyValue::Flag(true)));
    assert_eq!(
        factories(&make_window_branch()),
        ["queue", "videoconvert", "autovideosink"]
    );
    assert_eq!(factories(&make_normaliser(true)), ["queue"]);
    let decoded = make_normaliser(false);
    assert_eq!(
        factories(&decoded),
        [
            "queue", "videoconvert", "queue", "videoscale", "queue", "videorate", "queue",
            "capsfilter"
        ]
    );
    assert!(matches!(
        decoded[7].properties[0].value,
        PropertyValue::RawVideo { width: 1920, height: 1080, fps: 60 }
    ));
}

#[test]
fn a_gap_ends_with_the_first_keyframe() {
    let mut clock = GapClock::new();
    assert_eq!(clock.on_frame(true, 10), None);
    clock.on_attach(1_000);
    assert_eq!(clock.on_frame(false, 1_400), None);
    assert_eq!(clock.on_frame(true, 2_600), Some(1_600));
    assert_eq!(clock.on_frame(true, 4_600), None);
    clock.on_attach(5_000);
    assert_eq!(clock.on_frame(true, 4_000), Some(0));
}
