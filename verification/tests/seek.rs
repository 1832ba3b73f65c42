use playout::seek::{seek_walk, should_seek_to};

#[test]
fn seek_guards() {
    assert!(!should_seek_to(0, Some(60_000))); // no offset
    assert!(!should_seek_to(-5, Some(60_000)));
    assert!(should_seek_to(30_000, Some(60_000))); // mid-clip
    assert!(!should_seek_to(58_000, Some(60_000))); // tail guard
    assert!(!should_seek_to(59_500, Some(60_000))); // past the end
    assert!(should_seek_to(30_000, None)); // unknown duration errs toward seeking
    assert!(should_seek_to(30_000, Some(0)));
}

#[test]
fn seek_walk_moves_by_signed_spans() {
    // Three 180s clips; -1 marks a clip whose duration is not known.
    let durs = |list: &'static [i64]| {
        move |i: usize| {
            let d = list[i];
            (d >= 0).then_some(d)
        }
    };
    let uniform = durs(&[180_000, 180_000, 180_000]);

    // Within the active clip, both directions.
    assert_eq!(seek_walk(0, 10_000, 5_000, 3, uniform), (0, 15_000));
    assert_eq!(seek_walk(1, 60_000, -30_000, 3, uniform), (1, 30_000));
    assert_eq!(seek_walk(1, 5_000, 0, 3, uniform), (1, 5_000));

    // Across boundaries, wrapping in both directions.
    assert_eq!(seek_walk(0, 170_000, 20_000, 3, uniform), (1, 10_000));
    assert_eq!(seek_walk(0, 0, 400_000, 3, uniform), (2, 40_000));
    assert_eq!(seek_walk(2, 170_000, 20_000, 3, uniform), (0, 10_000));
    assert_eq!(seek_walk(1, 10_000, -30_000, 3, uniform), (0, 160_000));
    assert_eq!(seek_walk(0, 10_000, -30_000, 3, uniform), (2, 160_000));

    // A clip with an unknown duration is a boundary, not a span: forward
    // lands at the top of the clip after it, backward at its own top.
    let holey = durs(&[180_000, -1, 180_000]);
    assert_eq!(seek_walk(0, 0, 200_000, 3, holey), (2, 0));
    assert_eq!(seek_walk(2, 10_000, -30_000, 3, holey), (1, 0));

    // Moves longer than the corpus wrap modulo its total length (540s):
    // +10000s = +280s, clip 1 at 100s; -10000s = +260s, clip 1 at 80s.
    assert_eq!(seek_walk(0, 0, 10_000_000, 3, uniform), (1, 100_000));
    assert_eq!(seek_walk(0, 0, -10_000_000, 3, uniform), (1, 80_000));
    // Exact multiples of the corpus land back where they started.
    assert_eq!(seek_walk(1, 30_000, 5_400_000, 3, uniform), (1, 30_000));
    assert_eq!(seek_walk(1, 30_000, -5_400_000, 3, uniform), (1, 30_000));
    // Extreme deltas saturate instead of overflowing, and wrap from there.
    let (i, off) = seek_walk(0, 0, i64::MIN, 3, uniform);
    assert!(i < 3 && (0..180_000).contains(&off));
}

#[test]
fn seek_walk_lands_on_a_clip_whatever_the_move() {
    let durations: [Option<i64>; 4] = [Some(3_000), None, Some(0), Some(7_000)];
    for active in 0..4usize {
        for pos in [0i64, 1, 2_999, i64::MAX] {
            for delta in [0i64, 1, -1, 12_345, -12_345, i64::MAX, i64::MIN] {
                let (i, off) = seek_walk(active, pos, delta, 4, |k: usize| durations[k]);
                assert!(i < 4);
                assert!(off >= 0);
            }
        }
    }
}

#[test]
fn seek_walk_adds_moves_up() {
    let durations: [i64; 3] = [60_000, 120_000, 30_000];
    let of = |k: usize| Some(durations[k]);
    let (i, off) = seek_walk(0, 10_000, 95_000, 3, of);
    assert_eq!((i, off), (1, 45_000));
    assert_eq!(seek_walk(i, off, 80_000, 3, of), seek_walk(0, 10_000, 175_000, 3, of));
    assert_eq!(seek_walk(i, off, 80_000, 3, of), (2, 5_000));
    // And a move undoes its opposite.
    assert_eq!(seek_walk(i, off, -95_000, 3, of), (0, 10_000));
}

#[test]
fn seek_walk_without_any_duration_moves_by_one_clip() {
    let unknown = |_: usize| None;
    assert_eq!(seek_walk(1, 5_000, 60_000, 3, unknown), (2, 0));
    assert_eq!(seek_walk(0, 5_000, -60_000, 3, unknown), (2, 0));
}

#[test]
fn should_seek_to_at_the_tail_guard() {
    assert!(should_seek_to(57_999, Some(60_000)));
    assert!(!should_seek_to(1, Some(2_001)));
    assert!(!should_seek_to(1, Some(1)));
    assert!(should_seek_to(1, Some(2_002)));
    assert!(should_seek_to(1, Some(-1)));
}

#[test]
fn a_rewind_in_a_clip_of_unknown_duration_lands_at_its_top() {
    let holey = |i: usize| [Some(180_000), None, Some(180_000)][i];
    assert_eq!(seek_walk(1, 60_000, -30_000, 3, holey), (1, 0));
    assert_eq!(seek_walk(1, 60_000, -60_000, 3, holey), (1, 0));
    assert_eq!(seek_walk(1, 60_000, -90_000, 3, holey), (0, 150_000));
    // Forward it is a boundary.
    assert_eq!(seek_walk(1, 60_000, 30_000, 3, holey), (2, 0));
    // A duration of nothing is as good as none.
    assert_eq!(seek_walk(0, 60_000, -1, 2, |_: usize| Some(0)), (0, 0));
}
