use playout::player::{
    splice_verdict, ClipError, Durations, ErrorSource, HeldPad, HoldVerdict, PadItem, Player,
    SeekMode, SpliceVerdict,
};
use playout::playlist::ClipFile;

fn clip_file(name: &str) -> ClipFile {
    ClipFile {
        path: format!("/corpus/{name}"),
        key: vec![b"corpus".to_vec(), name.as_bytes().to_vec()],
        name: Some(name.to_string()),
    }
}

fn three_clips(passthrough: bool) -> Player {
    Player::new(
        vec![clip_file("clip_a.mp4"), clip_file("clip_b.mp4"), clip_file("clip_c.mp4")],
        passthrough,
    )
}

fn started(first: usize) -> Player {
    let mut player = three_clips(false);
    player.start(Some((first, 0)), 10, 11);
    player.mark_active(Some(0));
    player
}

fn from_bins(bins: &[u64]) -> ErrorSource {
    ErrorSource { under_pipeline: true, bins: bins.to_vec() }
}

fn live(player: &Player) -> Vec<(u64, usize)> {
    player.clips.iter().map(|c| (c.bin, c.index)).collect()
}

#[test]
fn start_brings_up_the_clip_to_resume_and_its_successor() {
    let mut player = three_clips(false);
    let (active, next) = player.start(Some((2, 1_500)), 10, 11);
    assert_eq!((active.bin, active.index, active.offset_ms), (10, 2, 1_500));
    assert_eq!(active.uri, "file:///corpus/clip_c.mp4");
    assert!(active.hold_for_seek && !active.compressed);
    assert_eq!((next.bin, next.index, next.offset_ms), (11, 0, 0));
    assert!(!next.hold_for_seek);
    assert_eq!(live(&player), [(10, 2), (11, 0)]);
}

#[test]
fn cold_start_picks_a_clip_at_random() {
    let mut seen = [false; 3];
    for _ in 0..500 {
        let mut player = three_clips(false);
        let (active, next) = player.start(None, 1, 2);
        assert_eq!(active.offset_ms, 0);
        assert_eq!(next.index, (active.index + 1) % 3);
        seen[active.index] = true;
    }
    assert_eq!(seen, [true, true, true]);
}

#[test]
fn boundaries_promote_and_wrap() {
    let mut player = started(0);
    for k in 0..7u64 {
        let ended = player.clips[0].bin;
        let plan = player.on_clip_eos(ended, Some(1_000_000 * k), 20 + k).unwrap();
        assert_eq!(plan.index, ((k + 2) % 3) as usize);
        assert_eq!(player.active_index(), ((k + 1) % 3) as usize);
        assert_eq!(player.clips.len(), 2);
        assert_eq!(player.clips[0].start_rt, Some(1_000_000 * k));
        assert_eq!(player.clips[1].start_rt, None);
    }
}

#[test]
fn a_boundary_with_nothing_prerolled_spawns_nothing() {
    let mut player = three_clips(false);
    player.spawn(5, 0, 0);
    assert!(player.on_clip_eos(5, None, 6).is_none());
    assert!(player.clips.is_empty());
    // A bin that is not live changes nothing but the failure count.
    let mut player = started(0);
    player.recoveries = 2;
    let plan = player.on_clip_eos(99, Some(7), 12).unwrap();
    assert_eq!(plan.index, 1);
    assert_eq!(player.recoveries, 0);
}

#[test]
fn an_active_failure_promotes_the_prerolled_clip() {
    let mut player = started(0);
    let outcome = player.on_clip_error(&from_bins(&[10]), Some(9_000_000), 12);
    assert!(outcome.absorbed());
    let ClipError::Recovered { failed, was_active, spawned } = outcome else {
        panic!("not recovered");
    };
    assert_eq!(failed.bin, 10);
    assert!(was_active);
    assert_eq!(spawned.index, 2);
    assert_eq!(live(&player), [(11, 1), (12, 2)]);
    assert_eq!(player.clips[0].start_rt, Some(9_000_000));
    assert_eq!(player.recoveries, 1);
}

#[test]
fn a_prerolled_failure_is_stepped_over() {
    let mut player = started(0);
    let outcome = player.on_clip_error(&from_bins(&[7, 11]), Some(5), 12);
    let ClipError::Recovered { failed, was_active, spawned } = outcome else {
        panic!("not recovered");
    };
    assert_eq!(failed.index, 1);
    assert!(!was_active);
    assert_eq!(spawned.index, 2);
    assert_eq!(live(&player), [(10, 0), (12, 2)]);
    assert_eq!(player.clips[0].start_rt, Some(0));
}

#[test]
fn other_errors_are_not_a_clips() {
    let mut player = started(0);
    let outcome = player.on_clip_error(&from_bins(&[77]), None, 12);
    assert!(matches!(outcome, ClipError::NotAClip));
    assert!(!outcome.absorbed());
    // The echo of a failure that was dealt with.
    let gone = ErrorSource { under_pipeline: false, bins: Vec::new() };
    let outcome = player.on_clip_error(&gone, None, 12);
    assert!(matches!(outcome, ClipError::Echo));
    assert!(outcome.absorbed());
    assert_eq!(player.recoveries, 0);
    assert_eq!(live(&player), [(10, 0), (11, 1)]);
}

#[test]
fn a_bad_corpus_gives_up() {
    let mut player = started(0);
    for k in 0..3u64 {
        let active = player.clips[0].bin;
        let outcome = player.on_clip_error(&from_bins(&[active]), None, 20 + k);
        assert!(matches!(outcome, ClipError::Recovered { .. }));
    }
    let active = player.clips[0].bin;
    let outcome = player.on_clip_error(&from_bins(&[active]), None, 30);
    assert!(matches!(&outcome, ClipError::GaveUp { failed } if failed.bin == active));
    assert!(!outcome.absorbed());
}

#[test]
fn a_clip_that_plays_through_starts_the_count_over() {
    let mut player = started(0);
    for k in 0..20u64 {
        let active = player.clips[0].bin;
        if k % 3 == 2 {
            player.on_clip_eos(active, None, 100 + k);
            assert_eq!(player.recoveries, 0);
        } else {
            let outcome = player.on_clip_error(&from_bins(&[active]), None, 100 + k);
            assert!(matches!(outcome, ClipError::Recovered { .. }));
        }
        assert_eq!(player.clips.len(), 2);
    }
}

#[test]
fn play_at_cuts_to_the_named_clip() {
    let mut player = started(0);
    let redirect = player.play_at(12, "clip_c.mp4", 4_000).unwrap();
    assert_eq!(redirect.dropped.len(), 1);
    assert_eq!(redirect.dropped[0].bin, 11);
    assert_eq!(redirect.finish, 10);
    assert_eq!((redirect.spawned.index, redirect.spawned.offset_ms), (2, 4_000));
    assert_eq!(live(&player), [(10, 0), (12, 2)]);
    // Once the active clip has ended, the target plays.
    let plan = player.on_clip_eos(10, Some(3_000_000), 13).unwrap();
    assert_eq!(player.active_index(), 2);
    assert_eq!(plan.index, 0);
    assert_eq!(player.playhead(Some(5_000_000)), Some(("clip_c.mp4".to_string(), 4_002)));
}

#[test]
fn an_unknown_name_changes_nothing() {
    let mut player = started(0);
    assert!(player.play_file(12, "nope.mp4").is_none());
    assert!(player.play_at(12, "/corpus/clip_a.mp4", 5).is_none());
    assert_eq!(live(&player), [(10, 0), (11, 1)]);
}

#[test]
fn skip_and_back_redirect_by_index() {
    let mut player = started(0);
    assert_eq!(player.skip(12, 0).spawned.index, 1);
    assert_eq!(player.skip(13, 5).spawned.index, 2);
    assert_eq!(player.back(14, 1).spawned.index, 2);
    assert_eq!(live(&player), [(10, 0), (14, 2)]);
    assert!(player.play_random(15).spawned.index < 3);
}

#[test]
fn find_takes_the_first_of_a_name() {
    let mut nameless = clip_file("x");
    nameless.name = None;
    let player = Player::new(vec![nameless, clip_file("twin.mp4"), clip_file("twin.mp4")], false);
    assert_eq!(player.find("twin.mp4"), Some(1));
    assert_eq!(player.find(""), None);
    assert_eq!(player.basename_at(0), "");
    assert_eq!(player.uri_at(1), "file:///corpus/twin.mp4");
}

#[test]
fn the_playhead_follows_the_clock() {
    let mut player = three_clips(false);
    assert_eq!(player.playhead(Some(1)), None);
    assert_eq!(player.current_basename(), None);
    player.start(Some((1, 2_500)), 10, 11);
    // Not active yet: the offset alone.
    assert_eq!(player.playhead(Some(9_000_000_000)), Some(("clip_b.mp4".to_string(), 2_500)));
    player.mark_active(Some(1_000_000_000));
    assert_eq!(player.playhead(Some(4_000_000_000)), Some(("clip_b.mp4".to_string(), 5_500)));
    // A clock behind the start does not move it back.
    assert_eq!(player.playhead(Some(0)), Some(("clip_b.mp4".to_string(), 2_500)));
    assert_eq!(player.playhead(None), Some(("clip_b.mp4".to_string(), 2_500)));
    assert_eq!(player.current_basename(), Some("clip_b.mp4".to_string()));
}

#[test]
fn running_time_is_clock_minus_base() {
    assert_eq!(Player::running_time(Some(10), Some(4)), Some(6));
    assert_eq!(Player::running_time(Some(4), Some(10)), Some(0));
    assert_eq!(Player::running_time(None, Some(10)), None);
    assert_eq!(Player::running_time(Some(4), None), None);
}

#[test]
fn seeks_are_planned_by_mode_and_duration() {
    let decoded = three_clips(false);
    let plan = decoded.plan_seek(10_000, Some(20_000)).unwrap();
    assert_eq!((plan.offset_ms, plan.mode), (10_000, SeekMode::Accurate));
    let compressed = three_clips(true);
    assert_eq!(compressed.plan_seek(10_000, None).unwrap().mode, SeekMode::Keyframe);
    assert!(decoded.plan_seek(19_000, Some(20_000)).is_none());
    assert!(decoded.plan_seek(0, Some(20_000)).is_none());
}

#[test]
fn finish_seek_records_the_offset_that_was_taken() {
    let mut player = three_clips(false);
    player.start(Some((0, 19_000)), 10, 11);
    // Within the tail guard: the clip plays from its top, and says so.
    let plan = player.plan_seek(19_000, Some(20_000));
    assert_eq!(player.finish_seek(10, plan, true), 0);
    assert_eq!(player.clips[0].offset_ms, 0);
    let plan = player.plan_seek(5_000, Some(20_000));
    assert_eq!(player.finish_seek(10, plan, false), 0);
    assert_eq!(player.finish_seek(10, plan, true), 5_000);
    assert_eq!(player.clips[0].offset_ms, 5_000);
    // A bin that is gone by now.
    assert_eq!(player.finish_seek(99, plan, true), 5_000);
    assert_eq!(player.clips[1].offset_ms, 0);
}

#[test]
fn a_seek_starts_from_the_playhead() {
    let mut player = started(1);
    player.clips[0].offset_ms = 1_000;
    let origin = player.seek_origin(Some(2_000_000_000));
    assert_eq!((origin.active, origin.pos_ms, origin.len), (1, 3_000, 3));
    let (index, offset_ms) = origin.seek_target(60_000, |_: usize| Some(10_000));
    assert_eq!((index, offset_ms), (1, 3_000));
    let (index, offset_ms) = origin.seek_target(-4_000, |_: usize| Some(10_000));
    assert_eq!((index, offset_ms), (0, 9_000));
    let idle = three_clips(false).seek_origin(None);
    assert_eq!((idle.active, idle.pos_ms), (0, 0));
}

#[test]
fn durations_are_kept_once_found() {
    let mut durations = Durations::new();
    assert_eq!(durations.cached(4), None);
    assert_eq!(durations.learn(4, None), None);
    assert_eq!(durations.cached(4), None);
    assert_eq!(durations.learn(4, Some(61_999_999)), Some(61));
    assert_eq!(durations.cached(4), Some(61));
    assert_eq!(durations.cached(5), None);
}

#[test]
fn jump_ends_the_active_clip() {
    assert_eq!(three_clips(false).jump(), None);
    assert_eq!(started(0).jump(), Some(10));
}

#[test]
fn held_pads_wait_for_the_first_buffer() {
    let mut pad = HeldPad::new();
    assert_eq!(pad.on_item(PadItem::OtherEvent), HoldVerdict::Drop);
    assert_eq!(pad.on_item(PadItem::EndOfStream), HoldVerdict::Drop);
    assert_eq!(pad.on_item(PadItem::Buffer), HoldVerdict::HoldAndSeek);
    assert_eq!(pad.on_item(PadItem::Buffer), HoldVerdict::Hold);
    assert_eq!(pad.on_item(PadItem::OtherEvent), HoldVerdict::Drop);
}

#[test]
fn a_clips_end_never_passes_the_splice() {
    assert_eq!(splice_verdict(PadItem::EndOfStream), SpliceVerdict::DropAndFinish);
    assert_eq!(splice_verdict(PadItem::Buffer), SpliceVerdict::Pass);
    assert_eq!(splice_verdict(PadItem::OtherEvent), SpliceVerdict::Pass);
}
