use playout::player::Player;
use playout::playlist::ClipFile;
use playout::telemetry::{
    attrs, attrs_with, init, parse_headers, set_nats_connected, Attr, Telemetry,
};

fn shown(attrs: &[Attr]) -> Vec<(&str, &str)> {
    attrs.iter().map(|a| (a.key.as_str(), a.value.as_str())).collect()
}

#[test]
fn headers_are_cut_and_trimmed() {
    let pair = |k: &str, v: &str| (k.to_string(), v.to_string());
    assert_eq!(
        parse_headers("Authorization=Basic abc==, X-Scope = 7 ,plain,=empty,last="),
        [
            pair("Authorization", "Basic abc=="),
            pair("X-Scope", "7"),
            pair("", "empty"),
            pair("last", "")
        ]
    );
    assert!(parse_headers("").is_empty());
    assert!(parse_headers(",,").is_empty());
    assert_eq!(parse_headers("\u{a0}k\t=\u{3000}v\n"), [pair("k", "v")]);
}

#[test]
fn records_carry_the_platform_once_it_is_known() {
    let mut telemetry = Telemetry::new();
    assert!(attrs(&telemetry).is_empty());
    let verb = || Attr { key: "verb".to_string(), value: "skip".to_string() };
    assert_eq!(shown(&attrs_with(&telemetry, verb())), [("verb", "skip")]);
    assert!(init(&mut telemetry, "1.0", "youtube", "stage-1", None, None).is_none());
    assert_eq!(shown(&attrs(&telemetry)), [("service.platform", "youtube")]);
    assert_eq!(
        shown(&attrs_with(&telemetry, verb())),
        [("service.platform", "youtube"), ("verb", "skip")]
    );
    // The first platform stays.
    init(&mut telemetry, "1.0", "twitch", "stage-1", None, None);
    assert_eq!(shown(&attrs(&telemetry)), [("service.platform", "youtube")]);
}

#[test]
fn metrics_are_exported_when_an_endpoint_is_set() {
    let mut telemetry = Telemetry::new();
    let export = init(
        &mut telemetry,
        "0.19.0",
        "youtube",
        "prod-1",
        Some("https://otlp.example/otlp//"),
        Some("Authorization=Basic x"),
    )
    .unwrap();
    assert_eq!(export.url, "https://otlp.example/otlp/v1/metrics");
    assert_eq!(export.headers, [("Authorization".to_string(), "Basic x".to_string())]);
    assert_eq!(
        shown(&export.resource),
        [
            ("service.version", "0.19.0"),
            ("service.namespace", "tripbot"),
            ("service.platform", "youtube"),
            ("deployment.environment", "prod-1")
        ]
    );
    let bare = init(&mut telemetry, "0", "p", "e", Some("http://h"), None).unwrap();
    assert_eq!(bare.url, "http://h/v1/metrics");
    assert!(bare.headers.is_empty());
}

#[test]
fn the_connection_is_sampled() {
    let file = ClipFile {
        path: "/a.mp4".to_string(),
        key: vec![b"a.mp4".to_vec()],
        name: Some("a.mp4".to_string()),
    };
    let mut player = Player::new(vec![file], false);
    let mut telemetry = Telemetry::new();
    let sample = telemetry.sample(&player, None);
    assert_eq!((sample.playhead_ms, sample.running_ms, sample.nats_connected), (None, None, 0));
    set_nats_connected(&mut telemetry, true);
    player.start(Some((0, 250)), 1, 2);
    player.mark_active(Some(1_000_000_000));
    let sample = telemetry.sample(&player, Some(3_500_999_999));
    assert_eq!(
        (sample.playhead_ms, sample.running_ms, sample.nats_connected),
        (Some(2_750), Some(3_500), 1)
    );
    set_nats_connected(&mut telemetry, false);
    assert_eq!(telemetry.sample(&player, None).nats_connected, 0);
}
