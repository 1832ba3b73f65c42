use playout::player::{Durations, SeekOrigin};
use playout::survey::{Lookup, Survey, SurveyStep, MAX_LOOKUPS};

/// Runs a move to its end; `actual` is what looking each clip up gives. Gives
/// the landing and the clips looked up.
fn settle(mut survey: Survey, actual: &[Option<i64>]) -> ((usize, i64), Vec<usize>) {
    let mut asked = Vec::new();
    loop {
        match survey.next() {
            SurveyStep::LookUp { index } => {
                asked.push(index);
                survey.take(index, actual[index]);
            }
            SurveyStep::Land { index, offset_ms } => return ((index, offset_ms), asked),
        }
    }
}

fn origin(active: usize, pos_ms: i64, len: usize) -> SeekOrigin {
    SeekOrigin { active, pos_ms, len }
}

#[test]
fn a_short_move_looks_up_only_what_it_meets() {
    let actual = [Some(10_000), Some(20_000), Some(30_000), Some(40_000)];
    let survey = Survey::new(origin(1, 15_000, 4), 12_000, &Durations::new());
    assert_eq!(settle(survey, &actual), ((2, 7_000), vec![1, 2]));
    let survey = Survey::new(origin(1, 5_000, 4), -20_000, &Durations::new());
    assert_eq!(settle(survey, &actual), ((3, 35_000), vec![0, 3]));
    let survey = Survey::new(origin(0, 0, 4), 230_000, &Durations::new());
    assert_eq!(settle(survey, &actual), ((2, 0), vec![0, 1, 2, 3]));
}

#[test]
fn what_is_cached_is_not_looked_up() {
    let mut durations = Durations::new();
    durations.learn(1, Some(20_000_000_000));
    let survey = Survey::new(origin(1, 15_000, 3), 12_000, &durations);
    assert_eq!(survey.known, [Lookup::Unknown, Lookup::Found(20_000), Lookup::Unknown]);
    let actual = [None, None, Some(30_000)];
    assert_eq!(settle(survey, &actual), ((2, 7_000), vec![2]));
}

#[test]
fn a_clip_that_cannot_be_measured_ends_the_move() {
    let actual = [Some(180_000), None, Some(180_000)];
    let survey = Survey::new(origin(0, 0, 3), 200_000, &Durations::new());
    assert_eq!(settle(survey, &actual), ((2, 0), vec![0, 1]));
    let survey = Survey::new(origin(1, 60_000, 3), -30_000, &Durations::new());
    assert_eq!(settle(survey, &actual), ((1, 0), vec![1]));
}

#[test]
fn a_long_move_looks_up_no_more_than_its_share() {
    // Thirty clips of 10s and 20s by turns are looked up; the others count
    // with their mean of 15s, whatever they really are.
    let actual: Vec<Option<i64>> = (0..100)
        .map(|i| match i {
            0..=29 if i % 2 == 0 => Some(10_000),
            0..=29 => Some(20_000),
            _ => Some(7_777_777),
        })
        .collect();
    let survey = Survey::new(origin(0, 0, 100), 450_000 + 10 * 15_000 + 4_000, &Durations::new());
    let (landing, asked) = settle(survey, &actual);
    assert_eq!(landing, (40, 4_000));
    assert_eq!(asked, (0..MAX_LOOKUPS).collect::<Vec<usize>>());
    // Backward, and longer than the corpus.
    for delta_ms in [-1_000_000_000, i64::MIN, i64::MAX] {
        let survey = Survey::new(origin(3, 1_000, 100), delta_ms, &Durations::new());
        let ((index, offset_ms), asked) = settle(survey, &actual);
        assert!(index < 100 && offset_ms >= 0);
        assert_eq!(asked.len(), MAX_LOOKUPS);
    }
}
