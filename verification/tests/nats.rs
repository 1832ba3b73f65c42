use playout::nats::{
    connect_step, dispatch, lastplayed_stream, needs_a_live_clip, order, seek_delta, subject,
    verb_of, Command, ConnectStep,
    Control, DeltaArg, LastPlayed, NArg, Order, Payload, PayloadKind, PlayFile,
    PlayFileAt, ResumeStep, Verb, DOMAINS, VERBS,
};
use playout::player::Player;
use playout::playlist::ClipFile;

fn control(platform: &str) -> Control {
    Control { env: "production".to_string(), platform: platform.to_string() }
}

fn corpus() -> Player {
    let files = ["clip_a.mp4", "clip_b.mp4", "clip_c.mp4"]
        .iter()
        .map(|name| ClipFile {
            path: format!("/corpus/{name}"),
            key: vec![b"corpus".to_vec(), name.as_bytes().to_vec()],
            name: Some(name.to_string()),
        })
        .collect();
    Player::new(files, false)
}

fn playing(first: usize) -> Player {
    let mut player = corpus();
    player.start(Some((first, 0)), 1, 2);
    player.mark_active(Some(0));
    player
}

fn record(file: &str, position_ms: i64) -> Option<LastPlayed> {
    Some(LastPlayed { file: file.to_string(), position_ms })
}

/// The wire names are the contract that the consumers speak; both spellings
/// must stay byte-exact until the legacy one is dropped.
#[test]
fn wire_names_match_the_contract() {
    assert_eq!(DOMAINS, ["playout", "vlc"]);
    assert_eq!(subject("prod", "vlc", "skip"), "tripbot.prod.vlc.skip");
    assert_eq!(
        subject("prod", "playout", "skip"),
        "tripbot.prod.playout.skip"
    );
    assert_eq!(lastplayed_stream("vlc"), "TRIPBOT_VLC_LASTPLAYED");
    assert_eq!(lastplayed_stream("playout"), "TRIPBOT_PLAYOUT_LASTPLAYED");
}

#[test]
fn verb_of_strips_base_and_platform_leaf() {
    let base = "tripbot.production.vlc.";
    assert_eq!(
        verb_of(
            "tripbot.production.vlc.play.random.youtube",
            base,
            "youtube"
        ),
        Some("play.random")
    );
    assert_eq!(
        verb_of("tripbot.production.vlc.skip.youtube", base, "youtube"),
        Some("skip")
    );
    // Another platform's leaf must not dispatch here.
    assert_eq!(
        verb_of("tripbot.production.vlc.skip.twitch", base, "youtube"),
        None
    );
    // Bare verb without a platform leaf is not a command.
    assert_eq!(
        verb_of("tripbot.production.vlc.skip", base, "youtube"),
        None
    );
    assert_eq!(verb_of("other.subject", base, "youtube"), None);
}

#[test]
fn stream_names_keep_what_is_no_ascii_letter() {
    assert_eq!(lastplayed_stream("a1-é"), "TRIPBOT_A1-é_LASTPLAYED");
}

#[test]
fn every_subscribed_subject_is_accepted_as_its_verb() {
    let control = control("youtube");
    let subjects = control.command_subjects();
    assert_eq!(subjects.len(), 12);
    assert_eq!(subjects[0], "tripbot.production.playout.play.random.youtube");
    assert_eq!(subjects[11], "tripbot.production.vlc.seek.youtube");
    for (k, subject) in subjects.iter().enumerate() {
        let verb = control.accept(subject).unwrap();
        assert_eq!(verb, VERBS[k % 6]);
        assert_ne!(Verb::parse(verb), Verb::Unknown);
    }
}

#[test]
fn another_platforms_commands_are_foreign() {
    let twitch = control("twitch");
    for subject in control("youtube").command_subjects() {
        assert_eq!(twitch.accept(&subject), None);
    }
    assert_eq!(twitch.accept("tripbot.staging.vlc.skip.twitch"), None);
    assert_eq!(twitch.accept("tripbot.production.vlc..twitch"), Some(""));
    assert_eq!(twitch.accept("tripbot.production.vlc.twitch"), None);
}

#[test]
fn verbs_are_told_apart() {
    assert_eq!(Verb::parse("play.random"), Verb::PlayRandom);
    assert_eq!(Verb::parse("play.file"), Verb::PlayFile);
    assert_eq!(Verb::parse("play.at"), Verb::PlayAt);
    assert_eq!(Verb::parse("skip"), Verb::Skip);
    assert_eq!(Verb::parse("back"), Verb::Back);
    assert_eq!(Verb::parse("seek"), Verb::Seek);
    assert_eq!(Verb::parse("Seek"), Verb::Unknown);
    assert_eq!(Verb::parse(""), Verb::Unknown);
}

#[test]
fn caches_are_declared_per_domain() {
    let configs = control("youtube").stream_configs();
    assert_eq!(configs.len(), 2);
    assert_eq!(configs[0].name, "TRIPBOT_PLAYOUT_LASTPLAYED");
    assert_eq!(configs[0].subject, "tripbot.production.playout.lastplayed.*");
    assert_eq!(configs[1].name, "TRIPBOT_VLC_LASTPLAYED");
    assert_eq!(configs[1].subject, "tripbot.production.vlc.lastplayed.*");
    assert_eq!(configs[1].max_messages_per_subject, 1);
}

#[test]
fn resume_reads_playout_first_and_falls_back() {
    let control = control("youtube");
    let player = corpus();
    let ResumeStep::Read { domain, stream, subject } = control.resume_start(true) else {
        panic!("no read");
    };
    assert_eq!(domain, 0);
    assert_eq!(stream, "TRIPBOT_PLAYOUT_LASTPLAYED");
    assert_eq!(subject, "tripbot.production.playout.lastplayed.youtube");
    // The first record that can be used decides.
    assert!(matches!(
        control.resume_next(&player, 0, &record("clip_b.mp4", 1_500)),
        ResumeStep::Resume { index: 1, position_ms: 1_500 }
    ));
    // A missing record, or one of a clip that has left, falls through.
    for unusable in [None, record("gone.mp4", 500)] {
        let step = control.resume_next(&player, 0, &unusable);
        assert!(matches!(
            &step,
            ResumeStep::Read { domain: 1, stream, subject }
                if stream == "TRIPBOT_VLC_LASTPLAYED"
                    && subject == "tripbot.production.vlc.lastplayed.youtube"
        ));
        assert!(matches!(control.resume_next(&player, 1, &unusable), ResumeStep::ColdStart));
    }
    assert!(matches!(
        control.resume_next(&player, 1, &record("clip_c.mp4", 0)),
        ResumeStep::Resume { index: 2, position_ms: 0 }
    ));
}

#[test]
fn without_a_connection_nothing_is_resumed() {
    assert!(matches!(control("youtube").resume_start(false), ResumeStep::ColdStart));
}

#[test]
fn a_tick_publishes_the_playhead_to_every_domain() {
    let control = control("youtube");
    assert!(control.tick(&corpus(), Some(0)).is_none());
    let player = playing(1);
    let tick = control.tick(&player, Some(12_345_678_901)).unwrap();
    assert_eq!(
        tick.subjects,
        [
            "tripbot.production.playout.lastplayed.youtube",
            "tripbot.production.vlc.lastplayed.youtube"
        ]
    );
    assert_eq!(
        tick.payload,
        "{\"emitted_at\":\"\",\"file\":\"clip_b.mp4\",\"position_ms\":12345}"
    );
}

#[test]
fn a_restart_resumes_where_the_tick_was() {
    let control = control("youtube");
    let player = playing(2);
    let (file, position_ms) = player.playhead(Some(5_000_000_000)).unwrap();
    let record = LastPlayed { file, position_ms };
    // The record as it goes over the wire.
    let wire: serde_json::Value = serde_json::from_str(&record.payload()).unwrap();
    let read = LastPlayed {
        file: wire["file"].as_str().unwrap().to_string(),
        position_ms: wire["position_ms"].as_i64().unwrap(),
    };
    assert!(matches!(
        control.resume_next(&corpus(), 0, &Some(read)),
        ResumeStep::Resume { index: 2, position_ms: 5_000 }
    ));
}

#[test]
fn payloads_are_json() {
    let odd = LastPlayed { file: "a \"b\"\\c\n.mp4".to_string(), position_ms: -7 };
    let wire: serde_json::Value = serde_json::from_str(&odd.payload()).unwrap();
    assert_eq!(wire["file"], "a \"b\"\\c\n.mp4");
    assert_eq!(wire["position_ms"], -7);
    assert_eq!(wire["emitted_at"], "");
}

#[test]
fn boot_waits_for_the_connection_within_its_window() {
    assert_eq!(connect_step(true, 0), ConnectStep::Connected);
    assert_eq!(connect_step(true, 20_000), ConnectStep::Connected);
    assert_eq!(connect_step(false, 0), ConnectStep::WaitOn);
    assert_eq!(connect_step(false, 9_999), ConnectStep::WaitOn);
    assert_eq!(connect_step(false, 10_000), ConnectStep::TimedOut);
}

#[test]
fn commands_redirect_playback() {
    let mut player = playing(0);
    let file = PlayFile { file: "clip_c.mp4".to_string() };
    let redirect = dispatch(&mut player, &Command::PlayFile(Some(file)), 5).unwrap();
    assert_eq!((redirect.spawned.bin, redirect.spawned.index), (5, 2));
    assert_eq!(redirect.finish, 1);
    let at = PlayFileAt { file: "clip_b.mp4".to_string(), position_ms: 999_999_999 };
    let redirect = dispatch(&mut player, &Command::PlayAt(Some(at)), 6).unwrap();
    assert_eq!((redirect.spawned.index, redirect.spawned.offset_ms), (1, 999_999_999));
    let redirect = dispatch(&mut player, &Command::Skip(Some(NArg { n: 0 })), 7).unwrap();
    assert_eq!(redirect.spawned.index, 1);
    let redirect = dispatch(&mut player, &Command::Back(Some(NArg { n: 1 })), 8).unwrap();
    assert_eq!(redirect.spawned.index, 2);
    let redirect = dispatch(&mut player, &Command::PlayRandom, 9).unwrap();
    assert!(redirect.spawned.index < 3);
    assert_eq!(player.clips.len(), 2);
}

#[test]
fn an_undecodable_move_goes_one_clip() {
    let mut player = playing(1);
    let redirect = dispatch(&mut player, &Command::Skip(None), 5).unwrap();
    assert_eq!(redirect.spawned.index, 2);
    let redirect = dispatch(&mut player, &Command::Back(None), 6).unwrap();
    assert_eq!(redirect.spawned.index, 0);
}

#[test]
fn commands_without_a_target_change_nothing() {
    let mut player = playing(1);
    let nope = PlayFile { file: "nope.mp4".to_string() };
    for command in [
        Command::PlayFile(None),
        Command::PlayFile(Some(nope)),
        Command::PlayAt(None),
        Command::Unknown,
    ] {
        assert!(dispatch(&mut player, &command, 5).is_none());
        let live: Vec<(u64, usize)> = player.clips.iter().map(|c| (c.bin, c.index)).collect();
        assert_eq!(live, [(1, 1), (2, 2)]);
    }
}

#[test]
fn a_seek_that_does_not_move_is_dropped() {
    assert_eq!(seek_delta(&None), None);
    assert_eq!(seek_delta(&Some(DeltaArg { delta_ms: 0 })), None);
    assert_eq!(seek_delta(&Some(DeltaArg { delta_ms: -30_000 })), Some(-30_000));
}

#[test]
fn commands_that_do_not_redirect_need_no_live_clip() {
    let mut idle = corpus();
    let nope = || PlayFile { file: "nope.mp4".to_string() };
    let nope_at = || PlayFileAt { file: "nope.mp4".to_string(), position_ms: 5 };
    for command in [
        Command::PlayFile(None),
        Command::PlayFile(Some(nope())),
        Command::PlayAt(None),
        Command::PlayAt(Some(nope_at())),
        Command::Unknown,
    ] {
        assert!(!needs_a_live_clip(&idle, &command));
        assert!(dispatch(&mut idle, &command, 5).is_none());
        assert!(idle.clips.is_empty());
    }
    let there = PlayFile { file: "clip_a.mp4".to_string() };
    assert!(needs_a_live_clip(&idle, &Command::PlayFile(Some(there))));
    assert!(needs_a_live_clip(&idle, &Command::Skip(None)));
    assert!(needs_a_live_clip(&idle, &Command::Back(Some(NArg { n: 2 }))));
    assert!(needs_a_live_clip(&idle, &Command::PlayRandom));
}

#[test]
fn verbs_name_their_payloads() {
    assert_eq!(Verb::PlayRandom.payload_kind(), PayloadKind::Nothing);
    assert_eq!(Verb::PlayFile.payload_kind(), PayloadKind::File);
    assert_eq!(Verb::PlayAt.payload_kind(), PayloadKind::FileAt);
    assert_eq!(Verb::Skip.payload_kind(), PayloadKind::Count);
    assert_eq!(Verb::Back.payload_kind(), PayloadKind::Count);
    assert_eq!(Verb::Seek.payload_kind(), PayloadKind::Delta);
    assert_eq!(Verb::Unknown.payload_kind(), PayloadKind::Nothing);
}

#[test]
fn verbs_and_payloads_make_orders() {
    let count = |n: i32| Payload::Count(Some(NArg { n }));
    assert!(matches!(
        order(Verb::Skip, count(3)),
        Order::Run(Command::Skip(Some(NArg { n: 3 })))
    ));
    assert!(matches!(
        order(Verb::Back, count(2)),
        Order::Run(Command::Back(Some(NArg { n: 2 })))
    ));
    let file = Payload::File(Some(PlayFile { file: "a.mp4".to_string() }));
    assert!(matches!(
        order(Verb::PlayFile, file),
        Order::Run(Command::PlayFile(Some(p))) if p.file == "a.mp4"
    ));
    let at = PlayFileAt { file: "b.mp4".to_string(), position_ms: 7 };
    assert!(matches!(
        order(Verb::PlayAt, Payload::FileAt(Some(at))),
        Order::Run(Command::PlayAt(Some(p))) if p.file == "b.mp4" && p.position_ms == 7
    ));
    assert!(matches!(
        order(Verb::PlayRandom, Payload::Nothing),
        Order::Run(Command::PlayRandom)
    ));
    assert!(matches!(order(Verb::Unknown, Payload::Nothing), Order::Run(Command::Unknown)));
    // Undecodable ones.
    assert!(matches!(order(Verb::Skip, Payload::Count(None)), Order::Run(Command::Skip(None))));
    assert!(matches!(
        order(Verb::PlayFile, Payload::File(None)),
        Order::Run(Command::PlayFile(None))
    ));
}

#[test]
fn a_seek_is_ordered_only_when_it_moves() {
    let delta = |delta_ms: i64| Payload::Delta(Some(DeltaArg { delta_ms }));
    assert!(matches!(order(Verb::Seek, delta(-30_000)), Order::Seek { delta_ms: -30_000 }));
    assert!(matches!(order(Verb::Seek, delta(0)), Order::Drop));
    assert!(matches!(order(Verb::Seek, Payload::Delta(None)), Order::Drop));
}

#[test]
fn a_nameless_clip_cold_starts() {
    let mut player = corpus();
    player.files[1].name = None;
    player.start(Some((1, 0)), 1, 2);
    let (file, position_ms) = player.playhead(None).unwrap();
    assert_eq!(file, "");
    let step = control("youtube").resume_next(&player, 1, &Some(LastPlayed { file, position_ms }));
    assert!(matches!(step, ResumeStep::ColdStart));
}
