use playout::http::{
    current, http_port, live_response, ready_response, routes, version_json, Endpoint,
    PipelineState, PortError, DEFAULT_PORT, GRAPHVIZ, OK, SERVICE_UNAVAILABLE,
};
use playout::player::Player;
use playout::playlist::ClipFile;

#[test]
fn ready_maps_pipeline_state_to_status() {
    let (status, body) = ready_response(PipelineState::Playing);
    assert_eq!(status, OK);
    assert_eq!(body, "OK");

    for state in [PipelineState::Null, PipelineState::Ready, PipelineState::Paused] {
        let (status, _) = ready_response(state);
        assert_eq!(status, SERVICE_UNAVAILABLE);
    }
}

#[test]
fn version_json_matches_contract() {
    let v = version_json("0.19.0", "unknown", "unknown");
    assert!(v["tag"].as_str().is_some_and(|t| !t.is_empty()));
    assert!(v["sha"].as_str().is_some_and(|s| !s.is_empty()));
    assert!(v["built_at"].as_str().is_some_and(|b| !b.is_empty()));
}

#[test]
fn version_json_carries_each_field() {
    let v = version_json("1.2.3", "abc", "2026-09-01T00:00:00Z");
    assert_eq!(v.len(), 3);
    assert_eq!(v["tag"], "1.2.3");
    assert_eq!(v["sha"], "abc");
    assert_eq!(v["built_at"], "2026-09-01T00:00:00Z");
}

#[test]
fn not_ready_says_why() {
    assert_eq!(
        ready_response(PipelineState::Paused),
        (503, "pipeline not playing (state Paused)".to_string())
    );
    assert_eq!(
        ready_response(PipelineState::VoidPending).1,
        "pipeline not playing (state VoidPending)"
    );
    assert_eq!(ready_response(PipelineState::Ready).1, "pipeline not playing (state Ready)");
    assert_eq!(ready_response(PipelineState::Null).1, "pipeline not playing (state Null)");
    assert_eq!(PipelineState::Playing.name(), "Playing");
    assert_eq!(live_response(), (200, "OK".to_string()));
}

#[test]
fn current_is_the_bare_file_name() {
    let file = ClipFile {
        path: "/corpus/clip_a.mp4".to_string(),
        key: vec![b"corpus".to_vec(), b"clip_a.mp4".to_vec()],
        name: Some("clip_a.mp4".to_string()),
    };
    let mut player = Player::new(vec![file], false);
    assert_eq!(current(&player), "");
    player.start(Some((0, 0)), 1, 2);
    assert_eq!(current(&player), "clip_a.mp4");
}

#[test]
fn every_name_of_the_current_clip_is_served() {
    let routes = routes();
    let at = |path: &str| routes.iter().find(|r| r.0 == path).map(|r| r.1);
    assert_eq!(at("/playout/current"), Some(Endpoint::Current));
    assert_eq!(at("/vlc/current"), Some(Endpoint::Current));
    assert_eq!(at("/health"), None);
    assert_eq!(at("/health/live"), Some(Endpoint::Live));
    assert_eq!(at("/health/ready"), Some(Endpoint::Ready));
    assert_eq!(at("/version"), Some(Endpoint::Version));
    assert_eq!(at("/debug/pipeline"), Some(Endpoint::PipelineDot));
    assert_eq!(routes.len(), 6);
    assert_eq!(GRAPHVIZ, "text/vnd.graphviz");
}

#[test]
fn the_port_is_read_as_a_number() {
    assert_eq!(http_port(None), Ok(DEFAULT_PORT));
    assert_eq!(http_port(None), Ok(8080));
    for good in ["0", "80", "65535", "+443", "000000000000000000000009"] {
        assert_eq!(http_port(Some(good)), Ok(good.parse::<u16>().unwrap()));
    }
    for bad in ["", "+", "-1", "65536", "80 ", "0x50", "99999999999999999999", "++1", "8O"] {
        assert!(bad.parse::<u16>().is_err());
        assert_eq!(http_port(Some(bad)), Err(PortError::NotAPort));
    }
}
