use playout::watchdog::{
    describe, describe_request, path_free, relay_addr, ProbeError, ReadStep, StatusReader, Watch,
    WatchVerdict, FAILURE_THRESHOLD, INITIAL_DELAY_MS, INTERVAL_MS, PROBE_TIMEOUT_MS,
};

#[test]
fn relay_addr_defaults_port_and_keeps_explicit() {
    assert_eq!(
        relay_addr("rtsp://mediamtx-facebook:8554/dashcam").unwrap(),
        "mediamtx-facebook:8554"
    );
    // No port in the authority: the RTSP default.
    assert_eq!(relay_addr("rtsp://host/dashcam").unwrap(), "host:554");
    // No path at all.
    assert_eq!(relay_addr("rtsp://host:8554").unwrap(), "host:8554");
    assert!(relay_addr("http://host/dashcam").is_err());
}

#[test]
fn other_schemes_are_refused_by_name() {
    let err = relay_addr("http://host/dashcam").unwrap_err();
    assert!(matches!(&err, ProbeError::NotRtsp { url } if url == "http://host/dashcam"));
    assert_eq!(err.message(), "not an rtsp:// url: http://host/dashcam");
    assert!(relay_addr("RTSP://host").is_err());
    assert_eq!(relay_addr("rtsp://").unwrap(), ":554");
}

#[test]
fn describe_accepts_200_and_rejects_404() {
    assert!(describe("RTSP/1.0 200 OK").is_ok());
    let err = describe("RTSP/1.0 404 Not Found").unwrap_err();
    assert!(err.message().contains("404"));
    assert_eq!(err.message(), "unexpected status: RTSP/1.0 404 Not Found");
}

#[test]
fn a_path_is_free_only_when_the_relay_answers_without_a_publisher() {
    assert!(!path_free(Some("RTSP/1.0 200 OK")));
    assert!(path_free(Some("RTSP/1.0 404 Not Found")));
    assert!(!path_free(None));
}

#[test]
fn requests_name_the_path() {
    assert_eq!(
        describe_request("rtsp://h/p"),
        "DESCRIBE rtsp://h/p RTSP/1.0\r\nCSeq: 1\r\nAccept: application/sdp\r\n\r\n"
    );
}

fn read_all(chunks: &[&[u8]]) -> ReadStep {
    let mut reader = StatusReader::new();
    for chunk in chunks {
        match reader.feed(chunk) {
            ReadStep::More => {}
            end => return end,
        }
    }
    ReadStep::More
}

#[test]
fn a_split_status_line_is_put_together() {
    let step = read_all(&[b"RTSP/1.0 4", b"04 Not", b" Found\r\nCSeq: 1\r\n"]);
    assert!(matches!(step, ReadStep::Status(line) if line == "RTSP/1.0 404 Not Found"));
    let step = read_all(&[b"RTSP/1.0 200 OK\nrest"]);
    assert!(matches!(step, ReadStep::Status(line) if line == "RTSP/1.0 200 OK"));
    assert!(matches!(read_all(&[b"RTSP/1.0 200"]), ReadStep::More));
}

#[test]
fn a_relay_that_hangs_up_is_an_error() {
    let step = read_all(&[b"RTSP/1.0", b""]);
    let ReadStep::Failed(err) = step else {
        panic!("not failed");
    };
    assert!(matches!(err, ProbeError::ClosedEarly));
    assert_eq!(err.message(), "connection closed before status line");
}

#[test]
fn bytes_that_are_no_text_are_replaced() {
    let step = read_all(&[b"RTSP/1.0 \xff\xfe200\r\n"]);
    assert!(matches!(step, ReadStep::Status(line) if line == "RTSP/1.0 \u{fffd}\u{fffd}200"));
}

#[test]
fn the_status_line_ends_before_the_line_break() {
    let status = |answer: &[u8]| match read_all(&[answer]) {
        ReadStep::Status(line) => line,
        _ => panic!("no status"),
    };
    assert_eq!(status(b"a\r\nb"), "a");
    assert_eq!(status(b"a\nb"), "a");
    assert_eq!(status(b"a\rb\n"), "a\rb");
    assert_eq!(status(b"a\r\r\n"), "a\r");
    assert_eq!(status(b"\nb"), "");
    assert_eq!(status(b"\r\n"), "");
}

#[test]
fn every_cut_of_an_answer_gives_the_same_status_line() {
    let answer: &[u8] = b"RTSP/1.0 404 \xe2\x82\r\nCSeq: \xff1\r\n";
    let whole: Vec<&str> = vec!["RTSP/1.0 404 \u{fffd}"];
    for first in 1..answer.len() {
        for second in first + 1..=answer.len() {
            let reads: Vec<&[u8]> =
                vec![&answer[..first], &answer[first..second], &answer[second..]];
            let step = read_all(&reads);
            assert!(matches!(step, ReadStep::Status(line) if line == whole[0]));
        }
    }
    // The same as the first line of the whole answer's text.
    let text = String::from_utf8_lossy(answer).into_owned();
    assert_eq!(text.lines().next(), Some(whole[0]));
}

/// The probes of a watchdog that publishes throughout, as (probes made,
/// declared dead); healthy once the script runs out.
fn watched(outcomes: &[bool], cap: usize) -> (usize, bool) {
    let mut watch = Watch::new();
    for k in 0..cap {
        let good = outcomes.get(k).copied().unwrap_or(true);
        if matches!(watch.on_probe(true, good), WatchVerdict::Dead) {
            return (k + 1, true);
        }
    }
    (cap, false)
}

#[test]
fn dead_on_exactly_the_threshold_of_consecutive_failures() {
    assert_eq!(watched(&[false, false, false], 10), (FAILURE_THRESHOLD as usize, true));
    assert_eq!(watched(&[true, false, true, false, false, false], 10), (6, true));
}

#[test]
fn alive_when_failures_are_not_consecutive() {
    assert_eq!(watched(&[false, false, true, false, false], 40), (40, false));
}

#[test]
fn the_first_probe_waits_out_the_initial_delay() {
    let mut watch = Watch::new();
    assert_eq!(watch.delay_ms(), INITIAL_DELAY_MS);
    watch.on_probe(true, true);
    assert_eq!(watch.delay_ms(), INTERVAL_MS);
    assert_eq!((INITIAL_DELAY_MS, INTERVAL_MS, PROBE_TIMEOUT_MS), (30_000, 30_000, 3_000));
}

#[test]
fn a_parked_relay_does_not_count_against_the_publish() {
    let mut watch = Watch::new();
    assert!(matches!(watch.on_probe(true, false), WatchVerdict::Failing { consecutive: 1 }));
    assert!(matches!(watch.on_probe(true, false), WatchVerdict::Failing { consecutive: 2 }));
    assert!(matches!(watch.on_probe(false, false), WatchVerdict::Healthy { after_failures: 2 }));
    assert!(matches!(watch.on_probe(true, false), WatchVerdict::Failing { consecutive: 1 }));
}

#[test]
fn answers_are_judged_from_their_bytes() {
    let verdict = |answer: &[u8]| match read_all(&[answer]) {
        ReadStep::Status(line) => describe(&line).is_ok(),
        _ => panic!("no status"),
    };
    assert!(verdict(b"RTSP/1.0 200 OK\r\nCSeq: 1\r\n\r\n"));
    assert!(!verdict(b"RTSP/1.0 404 Not Found\r\nCSeq: 1\r\n\r\n"));
    assert!(!verdict(b"RTSP/1.0 20\r\n0"));
}
