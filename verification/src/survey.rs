//! Finding out the clip durations that a playhead move needs. Looking one up
//! reads the file, so a move looks up no more than [`MAX_LOOKUPS`] of the clips
//! it meets: a long one must not have the whole corpus parsed at once. Past
//! that, a clip counts with the mean of the durations that are known.

use crate::player::{Durations, SeekOrigin};
use crate::seek::{
    after, answers, asked_offset, before, lemma_neighbours, measured, moved, saturating_sum,
    walk_backward, walk_forward,
};
use vstd::prelude::*;

verus! {

/// How many clips one move looks up at most.
pub const MAX_LOOKUPS: usize = 30;

/// What is known of a clip's duration.
#[derive(Clone, Copy, Debug, PartialEq, Eq, Structural)]
pub enum Lookup {
    /// It has not been looked up.
    Unknown,
    /// It was looked up and could not be found.
    Failed,
    /// It is this long, ms.
    Found(i64),
}

/// A playhead move and what it knows of the clips' durations.
pub struct Survey {
    pub origin: SeekOrigin,
    pub delta_ms: i64,
    /// What is known of each clip, in play order.
    pub known: Vec<Lookup>,
    /// How many clips the move has looked up.
    pub lookups: usize,
}

/// What a move needs next.
#[derive(Clone, Copy, Debug, PartialEq, Eq, Structural)]
pub enum SurveyStep {
    /// The duration of this clip, looked up.
    LookUp { index: usize },
    /// Nothing: it lands on this clip, at this position.
    Land { index: usize, offset_ms: i64 },
}

/// The duration that is known of a clip.
pub open spec fn held(lookup: Lookup) -> Option<i64> {
    match lookup {
        Lookup::Found(d) => Some(d),
        _ => None,
    }
}

/// The first clip of unknown duration that a walk meets which has `offset` (not
/// negative) to go from the top of clip `index`; `None` when it lands first.
pub open spec fn unknown_ahead(known: Seq<Lookup>, index: int, offset: int) -> Option<int>
    decreases offset,
{
    if known[index] is Unknown {
        Some(index)
    } else if !measured(held(known[index])) || offset < held(known[index])->0 {
        None
    } else {
        unknown_ahead(known, after(index, known.len() as int), offset - held(known[index])->0)
    }
}

/// The first clip of unknown duration that a walk meets which has `-offset`
/// (positive) to go back from the top of clip `index`; `None` when it lands
/// first.
pub open spec fn unknown_behind(known: Seq<Lookup>, index: int, offset: int) -> Option<int>
    decreases -offset,
{
    let prev = before(index, known.len() as int);
    if known[prev] is Unknown {
        Some(prev)
    } else if !measured(held(known[prev])) || offset + held(known[prev])->0 >= 0 {
        None
    } else {
        unknown_behind(known, prev, offset + held(known[prev])->0)
    }
}

/// The first clip of unknown duration that a move meets; `None` when it lands
/// first.
pub open spec fn unknown_met(
    known: Seq<Lookup>,
    index: int,
    pos_ms: int,
    delta_ms: int,
) -> Option<int> {
    let offset = asked_offset(pos_ms, delta_ms);
    if offset < 0 {
        unknown_behind(known, index, offset)
    } else {
        unknown_ahead(known, index, offset)
    }
}

/// How many clips are known to have a duration.
pub open spec fn known_count(known: Seq<Lookup>) -> int
    decreases known.len(),
{
    if known.len() == 0 {
        0
    } else {
        known_count(known.drop_last()) + (if measured(held(known.last())) {
            1int
        } else {
            0
        })
    }
}

/// The known durations together, ms.
pub open spec fn known_sum(known: Seq<Lookup>) -> int
    decreases known.len(),
{
    if known.len() == 0 {
        0
    } else {
        known_sum(known.drop_last()) + (if measured(held(known.last())) {
            held(known.last())->0 as int
        } else {
            0
        })
    }
}

/// The mean of the known durations, ms; `None` when there are none.
pub open spec fn mean_ms(known: Seq<Lookup>) -> Option<i64> {
    if known_count(known) == 0 {
        None
    } else {
        Some((known_sum(known) / known_count(known)) as i64)
    }
}

/// The durations a move lands by: what is known, and the mean for the rest.
pub open spec fn estimated(known: Seq<Lookup>) -> Seq<Option<i64>> {
    Seq::new(
        known.len(),
        |i: int| if known[i] is Unknown {
            mean_ms(known)
        } else {
            held(known[i])
        },
    )
}

/// `durations` are what is known, where it is known.
pub open spec fn agrees(durations: Seq<Option<i64>>, known: Seq<Lookup>) -> bool {
    &&& durations.len() == known.len()
    &&& forall|i: int|
        0 <= i < known.len() && !(#[trigger] known[i] is Unknown) ==> durations[i] == held(known[i])
}

/// Every clip's duration is known, or known not to be found.
pub open spec fn all_looked_up(known: Seq<Lookup>) -> bool {
    forall|i: int| 0 <= i < known.len() ==> !(#[trigger] known[i] is Unknown)
}

/// `i`, wrapped once.
spec fn wrapped(i: int, len: int) -> int {
    if i < 0 {
        i + len
    } else if i < len {
        i
    } else {
        i - len
    }
}

proof fn lemma_nothing_unknown_ahead(known: Seq<Lookup>, index: int, offset: int)
    requires
        0 <= index < known.len(),
        all_looked_up(known),
    ensures
        unknown_ahead(known, index, offset) is None,
    decreases offset,
{
    assert(!(known[index] is Unknown));
    lemma_neighbours(index, known.len() as int);
    if measured(held(known[index])) && offset >= held(known[index])->0 {
        lemma_nothing_unknown_ahead(
            known,
            after(index, known.len() as int),
            offset - held(known[index])->0,
        );
    }
}

proof fn lemma_nothing_unknown_behind(known: Seq<Lookup>, index: int, offset: int)
    requires
        0 <= index < known.len(),
        all_looked_up(known),
    ensures
        unknown_behind(known, index, offset) is None,
    decreases -offset,
{
    let prev = before(index, known.len() as int);
    lemma_neighbours(index, known.len() as int);
    assert(!(known[prev] is Unknown));
    if measured(held(known[prev])) && offset + held(known[prev])->0 < 0 {
        lemma_nothing_unknown_behind(known, prev, offset + held(known[prev])->0);
    }
}

fn look_ahead(known: &Vec<Lookup>, start: usize, offset: i64) -> (met: Option<usize>)
    requires
        start < known@.len(),
        offset >= 0,
    ensures
        match met {
            Some(i) => unknown_ahead(known@, start as int, offset as int) == Some(i as int)
                && i < known@.len() && known@[i as int] is Unknown,
            None => unknown_ahead(known@, start as int, offset as int) is None,
        },
{
    let len: usize = known.len();
    let mut at: usize = start;
    let mut left: i64 = offset;
    let mut steps: usize = 0;
    while steps < len
        invariant
            len == known@.len(),
            start < len,
            at < len,
            steps <= len,
            left >= 0,
            at == wrapped(start + steps, len as int),
            unknown_ahead(known@, start as int, offset as int) == unknown_ahead(
                known@,
                at as int,
                left as int,
            ),
            forall|j: int|
                0 <= j < steps ==> !(known@[#[trigger] wrapped(start + j, len as int)] is Unknown),
        decreases len - steps,
    {
        match known[at] {
            Lookup::Unknown => {
                return Some(at);
            },
            Lookup::Failed => {
                return None;
            },
            Lookup::Found(d) => {
                if d <= 0 || left < d {
                    return None;
                }
                proof {
                    lemma_neighbours(at as int, len as int);
                }
                left = left - d;
                at = if at + 1 < len { at + 1 } else { 0 };
                steps = steps + 1;
            },
        }
    }
    proof {
        assert forall|i: int| 0 <= i < len implies !(#[trigger] known@[i] is Unknown) by {
            let j = if i >= start { i - start } else { i + len - start };
            assert(wrapped(start + j, len as int) == i);
        }
        lemma_nothing_unknown_ahead(known@, at as int, left as int);
    }
    None
}

fn look_behind(known: &Vec<Lookup>, start: usize, offset: i64) -> (met: Option<usize>)
    requires
        start < known@.len(),
        offset < 0,
    ensures
        match met {
            Some(i) => unknown_behind(known@, start as int, offset as int) == Some(i as int)
                && i < known@.len() && known@[i as int] is Unknown,
            None => unknown_behind(known@, start as int, offset as int) is None,
        },
{
    let len: usize = known.len();
    let mut at: usize = start;
    let mut left: i64 = offset;
    let mut steps: usize = 0;
    while steps < len
        invariant
            len == known@.len(),
            start < len,
            at < len,
            steps <= len,
            left < 0,
            at == wrapped(start - steps, len as int),
            unknown_behind(known@, start as int, offset as int) == unknown_behind(
                known@,
                at as int,
                left as int,
            ),
            forall|j: int|
                1 <= j <= steps ==> !(known@[#[trigger] wrapped(start - j, len as int)] is Unknown),
        decreases len - steps,
    {
        let prev: usize = if at > 0 { at - 1 } else { len - 1 };
        proof {
            lemma_neighbours(at as int, len as int);
        }
        match known[prev] {
            Lookup::Unknown => {
                return Some(prev);
            },
            Lookup::Failed => {
                return None;
            },
            Lookup::Found(d) => {
                if d <= 0 || left + d >= 0 {
                    return None;
                }
                left = left + d;
                at = prev;
                steps = steps + 1;
            },
        }
    }
    proof {
        assert forall|i: int| 0 <= i < len implies !(#[trigger] known@[i] is Unknown) by {
            let j = if i < start { start - i } else { start - i + len };
            assert(wrapped(start - j, len as int) == i);
        }
        lemma_nothing_unknown_behind(known@, at as int, left as int);
    }
    None
}

/// The mean of the known durations, ms; `None` when there are none.
fn mean(known: &Vec<Lookup>) -> (ms: Option<i64>)
    ensures
        ms == mean_ms(known@),
{
    let mut sum: u128 = 0;
    let mut count: u64 = 0;
    let mut i: usize = 0;
    while i < known.len()
        invariant
            i <= known@.len(),
            count <= i,
            count == known_count(known@.take(i as int)),
            sum == known_sum(known@.take(i as int)),
            sum <= count * i64::MAX,
        decreases known.len() - i,
    {
        assert(known@.take(i as int + 1).drop_last() =~= known@.take(i as int));
        if let Lookup::Found(d) = known[i] {
            if d > 0 {
                assert(count * i64::MAX + i64::MAX <= u128::MAX && (count + 1) * i64::MAX == count
                    * i64::MAX + i64::MAX) by (nonlinear_arith)
                    requires
                        0 <= count <= u64::MAX,
                ;
                sum = sum + d as u128;
                count = count + 1;
            }
        }
        i = i + 1;
    }
    assert(known@.take(known@.len() as int) =~= known@);
    if count == 0 {
        return None;
    }
    let ms: u128 = sum / count as u128;
    assert(sum / (count as u128) <= i64::MAX) by (nonlinear_arith)
        requires
            sum <= count * i64::MAX,
            count > 0,
    ;
    Some(ms as i64)
}

impl Survey {
    /// Something is known, or not, of every clip, and no more clips were looked
    /// up than may be.
    pub open spec fn wf(&self) -> bool {
        &&& self.origin.wf()
        &&& self.known@.len() == self.origin.len
        &&& self.lookups <= MAX_LOOKUPS
    }

    /// The first clip of unknown duration that the move meets.
    pub open spec fn wants(&self) -> Option<int> {
        unknown_met(
            self.known@,
            self.origin.active as int,
            self.origin.pos_ms as int,
            self.delta_ms as int,
        )
    }

    /// A move by `delta_ms` that has looked up nothing yet. The durations found
    /// by earlier moves are known to it.
    pub fn new(origin: SeekOrigin, delta_ms: i64, durations: &Durations) -> (survey: Survey)
        requires
            origin.wf(),
        ensures
            survey.wf(),
            survey.origin == origin,
            survey.delta_ms == delta_ms,
            survey.lookups == 0,
            forall|i: int|
                0 <= i < origin.len ==> #[trigger] survey.known@[i] == (
                if durations.known@.dom().contains(i as usize) {
                    Lookup::Found(durations.known@[i as usize])
                } else {
                    Lookup::Unknown
                }),
    {
        let mut known: Vec<Lookup> = Vec::new();
        let mut i: usize = 0;
        while i < origin.len
            invariant
                i <= origin.len,
                known@.len() == i,
                forall|j: int|
                    0 <= j < i ==> #[trigger] known@[j] == (if durations.known@.dom().contains(
                        j as usize,
                    ) {
                        Lookup::Found(durations.known@[j as usize])
                    } else {
                        Lookup::Unknown
                    }),
            decreases origin.len - i,
        {
            let lookup: Lookup = match durations.cached(i) {
                Some(d) => Lookup::Found(d),
                None => Lookup::Unknown,
            };
            known.push(lookup);
            i = i + 1;
        }
        Survey { origin, delta_ms, known, lookups: 0 }
    }

    /// What the move needs next: the duration of the first clip it meets that
    /// is not known, as long as it may look one up, else nothing.
    pub fn next(&self) -> (step: SurveyStep)
        requires
            self.wf(),
        ensures
            match step {
                SurveyStep::LookUp { index } => {
                    &&& self.lookups < MAX_LOOKUPS
                    &&& self.wants() == Some(index as int)
                    &&& index < self.known@.len()
                    &&& self.known@[index as int] is Unknown
                },
                SurveyStep::Land { index, offset_ms } => {
                    &&& self.lookups == MAX_LOOKUPS || self.wants() is None
                    &&& index < self.origin.len
                    &&& offset_ms >= 0
                    &&& (index as int, offset_ms as int) == moved(
                        estimated(self.known@),
                        self.origin.active as int,
                        self.origin.pos_ms as int,
                        self.delta_ms as int,
                    )
                },
            },
    {
        if self.lookups < MAX_LOOKUPS {
            if let Some(index) = self.first_unknown() {
                return SurveyStep::LookUp { index };
            }
        }
        let durations: Vec<Option<i64>> = self.estimates();
        let of = |i: usize| -> (d: Option<i64>)
            requires
                i < durations@.len(),
            ensures
                d == durations@[i as int],
            { durations[i] };
        assert(answers(of, durations@, self.origin.len));
        let (index, offset_ms) = self.origin.seek_target(self.delta_ms, of);
        SurveyStep::Land { index, offset_ms }
    }

    fn first_unknown(&self) -> (met: Option<usize>)
        requires
            self.wf(),
        ensures
            match met {
                Some(i) => self.wants() == Some(i as int) && i < self.known@.len()
                    && self.known@[i as int] is Unknown,
                None => self.wants() is None,
            },
    {
        let from: i64 = if self.origin.pos_ms < 0 { 0 } else { self.origin.pos_ms };
        let offset: i64 = saturating_sum(from, self.delta_ms);
        if offset < 0 {
            look_behind(&self.known, self.origin.active, offset)
        } else {
            look_ahead(&self.known, self.origin.active, offset)
        }
    }

    fn estimates(&self) -> (durations: Vec<Option<i64>>)
        ensures
            durations@ == estimated(self.known@),
    {
        let mean: Option<i64> = mean(&self.known);
        let mut durations: Vec<Option<i64>> = Vec::new();
        let mut i: usize = 0;
        while i < self.known.len()
            invariant
                i <= self.known@.len(),
                mean == mean_ms(self.known@),
                durations@ == estimated(self.known@).take(i as int),
            decreases self.known.len() - i,
        {
            let duration: Option<i64> = match self.known[i] {
                Lookup::Unknown => mean,
                Lookup::Failed => None,
                Lookup::Found(d) => Some(d),
            };
            durations.push(duration);
            assert(durations@ =~= estimated(self.known@).take(i as int + 1));
            i = i + 1;
        }
        assert(estimated(self.known@).take(self.known@.len() as int) =~= estimated(self.known@));
        durations
    }

    /// Take in what looking up the duration of clip `index` came to, ms.
    pub fn take(&mut self, index: usize, found: Option<i64>)
        requires
            old(self).wf(),
            old(self).lookups < MAX_LOOKUPS,
            index < old(self).known@.len(),
        ensures
            final(self).wf(),
            final(self).origin == old(self).origin,
            final(self).delta_ms == old(self).delta_ms,
            final(self).lookups == old(self).lookups + 1,
            final(self).known@ == old(self).known@.update(
                index as int,
                match found {
                    Some(d) => Lookup::Found(d),
                    None => Lookup::Failed,
                },
            ),
    {
        let lookup: Lookup = match found {
            Some(d) => Lookup::Found(d),
            None => Lookup::Failed,
        };
        self.known.set(index, lookup);
        self.lookups = self.lookups + 1;
    }
}

/// How many clips a move looks up that has looked up `so_far`: one after the
/// other the first it meets of unknown duration, as long as it may. `answers`
/// is what looking up each clip gives.
pub open spec fn lookups_made(
    known: Seq<Lookup>,
    answers: Seq<Lookup>,
    index: int,
    pos_ms: int,
    delta_ms: int,
    so_far: nat,
) -> nat
    decreases MAX_LOOKUPS - so_far,
{
    let met = unknown_met(known, index, pos_ms, delta_ms);
    if so_far >= MAX_LOOKUPS || met is None {
        0
    } else {
        1 + lookups_made(
            known.update(met->0, answers[met->0]),
            answers,
            index,
            pos_ms,
            delta_ms,
            so_far + 1,
        )
    }
}

/// However long a move, and however little is known, it looks up no more than
/// [`MAX_LOOKUPS`] clips.
pub proof fn law_lookups_are_bounded(
    known: Seq<Lookup>,
    answers: Seq<Lookup>,
    index: int,
    pos_ms: int,
    delta_ms: int,
    so_far: nat,
)
    requires
        so_far <= MAX_LOOKUPS,
    ensures
        so_far + lookups_made(known, answers, index, pos_ms, delta_ms, so_far) <= MAX_LOOKUPS,
    decreases MAX_LOOKUPS - so_far,
{
    let met = unknown_met(known, index, pos_ms, delta_ms);
    if so_far < MAX_LOOKUPS && met is Some {
        law_lookups_are_bounded(
            known.update(met->0, answers[met->0]),
            answers,
            index,
            pos_ms,
            delta_ms,
            so_far + 1,
        );
    }
}

proof fn lemma_settled_ahead(
    known: Seq<Lookup>,
    one: Seq<Option<i64>>,
    other: Seq<Option<i64>>,
    index: int,
    offset: int,
)
    requires
        0 <= index < known.len(),
        agrees(one, known),
        agrees(other, known),
        unknown_ahead(known, index, offset) is None,
    ensures
        walk_forward(one, index, offset) == walk_forward(other, index, offset),
    decreases offset,
{
    assert(!(known[index] is Unknown));
    lemma_neighbours(index, known.len() as int);
    if measured(held(known[index])) && offset >= held(known[index])->0 {
        lemma_settled_ahead(
            known,
            one,
            other,
            after(index, known.len() as int),
            offset - held(known[index])->0,
        );
    }
}

proof fn lemma_settled_behind(
    known: Seq<Lookup>,
    one: Seq<Option<i64>>,
    other: Seq<Option<i64>>,
    index: int,
    offset: int,
)
    requires
        0 <= index < known.len(),
        agrees(one, known),
        agrees(other, known),
        unknown_behind(known, index, offset) is None,
    ensures
        walk_backward(one, index, offset) == walk_backward(other, index, offset),
    decreases -offset,
{
    let prev = before(index, known.len() as int);
    lemma_neighbours(index, known.len() as int);
    assert(!(known[prev] is Unknown));
    if measured(held(known[prev])) && offset + held(known[prev])->0 < 0 {
        lemma_settled_behind(known, one, other, prev, offset + held(known[prev])->0);
    }
}

/// A move that meets no clip of unknown duration lands by the clips' actual
/// durations: no estimate has a say in it, whatever the durations of the clips
/// it does not meet.
pub proof fn law_a_settled_move_lands_by_actual_durations(
    known: Seq<Lookup>,
    actual: Seq<Option<i64>>,
    index: int,
    pos_ms: int,
    delta_ms: int,
)
    requires
        0 <= index < known.len(),
        agrees(actual, known),
        unknown_met(known, index, pos_ms, delta_ms) is None,
    ensures
        moved(estimated(known), index, pos_ms, delta_ms) == moved(actual, index, pos_ms, delta_ms),
{
    let offset = asked_offset(pos_ms, delta_ms);
    assert(agrees(estimated(known), known));
    if offset < 0 {
        lemma_settled_behind(known, estimated(known), actual, index, offset);
    } else {
        assert(!(known[index] is Unknown));
        lemma_settled_ahead(known, estimated(known), actual, index, offset);
    }
}

/// A clip counts with the duration that was found for it, with none when none
/// could be found, and with the mean when it was not looked up; there are as
/// many as there are clips.
pub proof fn law_only_what_is_not_looked_up_is_estimated(known: Seq<Lookup>, i: int)
    requires
        0 <= i < known.len(),
    ensures
        estimated(known).len() == known.len(),
        known[i] matches Lookup::Found(d) ==> estimated(known)[i] == Some(d),
        known[i] is Failed ==> estimated(known)[i] is None,
        known[i] is Unknown ==> estimated(known)[i] == mean_ms(known),
{
}

/// The mean is that of the positive durations found: each of them counts once,
/// and with its length, and nothing else does.
pub proof fn law_the_mean_is_that_of_the_durations_found(known: Seq<Lookup>, lookup: Lookup)
    ensures
        known_count(Seq::empty()) == 0,
        known_sum(Seq::empty()) == 0,
        match lookup {
            Lookup::Found(d) if d > 0 => {
                &&& known_count(known.push(lookup)) == known_count(known) + 1
                &&& known_sum(known.push(lookup)) == known_sum(known) + d
            },
            _ => {
                &&& known_count(known.push(lookup)) == known_count(known)
                &&& known_sum(known.push(lookup)) == known_sum(known)
            },
        },
        known_count(known) == 0 ==> mean_ms(known) is None,
        known_count(known) > 0 ==> {
            &&& mean_ms(known) is Some
            &&& mean_ms(known)->0 * known_count(known) <= known_sum(known)
            &&& known_sum(known) < (mean_ms(known)->0 + 1) * known_count(known)
        },
{
    assert(known.push(lookup).drop_last() =~= known);
    lemma_known_bounds(known);
    let (c, s) = (known_count(known), known_sum(known));
    if c > 0 {
        vstd::arithmetic::div_mod::lemma_fundamental_div_mod(s, c);
        vstd::arithmetic::div_mod::lemma_mod_bound(s, c);
        assert(0 <= s / c <= i64::MAX) by (nonlinear_arith)
            requires
                0 <= s <= c * i64::MAX,
                c > 0,
        ;
        let m = s / c;
        assert(m * c == c * m && (m + 1) * c == c * m + c) by (nonlinear_arith);
    }
}

proof fn lemma_known_bounds(known: Seq<Lookup>)
    ensures
        0 <= known_count(known) <= known.len(),
        0 <= known_sum(known) <= known_count(known) * i64::MAX,
    decreases known.len(),
{
    if known.len() > 0 {
        lemma_known_bounds(known.drop_last());
        let c = known_count(known.drop_last());
        assert((c + 1) * i64::MAX == c * i64::MAX + i64::MAX) by (nonlinear_arith);
    }
}

/// A move on meets the active clip first. When that is not looked up, it is the
/// one wanted; when it was not found or ends the move, none is; else the move
/// goes on from the top of the next clip, and wants what it wants there.
pub proof fn law_a_move_on_wants_the_first_clip_it_cannot_cross(
    known: Seq<Lookup>,
    index: int,
    pos_ms: int,
    delta_ms: int,
)
    requires
        0 <= index < known.len(),
        0 <= pos_ms,
        0 <= pos_ms + delta_ms <= i64::MAX,
    ensures
        match known[index] {
            Lookup::Unknown => unknown_met(known, index, pos_ms, delta_ms) == Some(index),
            Lookup::Failed => unknown_met(known, index, pos_ms, delta_ms) is None,
            Lookup::Found(d) => if d <= 0 || pos_ms + delta_ms < d {
                unknown_met(known, index, pos_ms, delta_ms) is None
            } else {
                unknown_met(known, index, pos_ms, delta_ms) == unknown_met(
                    known,
                    if index + 1 < known.len() {
                        index + 1
                    } else {
                        0
                    },
                    0,
                    pos_ms + delta_ms - d,
                )
            },
        },
{
    lemma_neighbours(index, known.len() as int);
}

/// A move back past the top of the active clip meets the clip before it next.
/// When that is not looked up, it is the one wanted; when it was not found or
/// ends the move, none is; else the move goes on from its top.
pub proof fn law_a_move_back_wants_the_first_clip_it_cannot_cross(
    known: Seq<Lookup>,
    index: int,
    pos_ms: int,
    delta_ms: int,
)
    requires
        0 <= index < known.len(),
        0 <= pos_ms,
        i64::MIN <= pos_ms + delta_ms < 0,
    ensures
        ({
            let prev = if index > 0 { index - 1 } else { known.len() - 1 };
            match known[prev] {
                Lookup::Unknown => unknown_met(known, index, pos_ms, delta_ms) == Some(prev),
                Lookup::Failed => unknown_met(known, index, pos_ms, delta_ms) is None,
                Lookup::Found(d) => if d <= 0 || pos_ms + delta_ms + d >= 0 {
                    unknown_met(known, index, pos_ms, delta_ms) is None
                } else {
                    unknown_met(known, index, pos_ms, delta_ms) == unknown_met(
                        known,
                        prev,
                        0,
                        pos_ms + delta_ms + d,
                    )
                },
            }
        }),
{
    lemma_neighbours(index, known.len() as int);
}

/// What a move wants is what it meets from where it starts; a position before
/// the top counts as the top, and a move past the range as one to its end.
pub proof fn law_a_move_wants_what_it_meets(survey: Survey)
    requires
        survey.wf(),
    ensures
        survey.lookups <= 30,
        survey.known@.len() == survey.origin.len,
        survey.origin.active < survey.origin.len,
        ({
            let (active, pos, delta) = (
                survey.origin.active as int,
                survey.origin.pos_ms as int,
                survey.delta_ms as int,
            );
            let from = if pos < 0 { 0 } else { pos };
            survey.wants() == (if from + delta > i64::MAX {
                unknown_met(survey.known@, active, 0, i64::MAX as int)
            } else {
                unknown_met(survey.known@, active, from, delta)
            })
        }),
{
}

} // verus!
