//! Moving the playhead by a signed span of time across the looping playlist,
//! and the guard that keeps a seek out of a clip's last moments.
//!
//! The playlist is modelled as its clips' durations in play order, looping in
//! both directions. A clip is *measured* when its duration is known and
//! positive.

use vstd::prelude::*;

verus! {

/// A seek that would land less than this before a clip's end starts the clip
/// at its top: the clip would end almost immediately after the splice.
pub const SEEK_TAIL_GUARD_MS: i64 = 2000;

/// A duration a position can be counted against: known and positive.
pub open spec fn measured(duration: Option<i64>) -> bool {
    duration matches Some(d) && d > 0
}

/// The index one clip after `index`, wrapping.
pub open spec fn after(index: int, len: int) -> int {
    (index + 1) % len
}

/// The index one clip before `index`, wrapping.
pub open spec fn before(index: int, len: int) -> int {
    (index + len - 1) % len
}

/// Where a walk lands that still has `offset` (not negative) to go from the
/// top of clip `index`: inside the clip when it is long enough, else on from
/// the top of the next clip with the clip's duration used up. A clip that is
/// not measured ends the walk: at its own top when nothing is left to go, else
/// at the top of the clip after it.
pub open spec fn walk_forward(durations: Seq<Option<i64>>, index: int, offset: int) -> (int, int)
    decreases offset,
{
    let len = durations.len() as int;
    if !measured(durations[index]) {
        if offset == 0 {
            (index, 0)
        } else {
            (after(index, len), 0)
        }
    } else if offset < durations[index]->0 {
        (index, offset)
    } else {
        walk_forward(durations, after(index, len), offset - durations[index]->0)
    }
}

/// Where a walk lands that still has `-offset` (positive) to go back from the
/// top of clip `index`: inside the clip before when that is long enough, else
/// on from that clip's top. A clip that is not measured ends the walk at its
/// own top.
pub open spec fn walk_backward(durations: Seq<Option<i64>>, index: int, offset: int) -> (int, int)
    decreases -offset,
{
    let prev = before(index, durations.len() as int);
    if !measured(durations[prev]) {
        (prev, 0)
    } else if offset + durations[prev]->0 >= 0 {
        (prev, offset + durations[prev]->0)
    } else {
        walk_backward(durations, prev, offset + durations[prev]->0)
    }
}

/// Where the playhead lands when it is moved to `offset` ms after (before,
/// when negative) the top of clip `index`: the clip and the position in it.
pub open spec fn landing(durations: Seq<Option<i64>>, index: int, offset: int) -> (int, int) {
    if offset < 0 {
        walk_backward(durations, index, offset)
    } else {
        walk_forward(durations, index, offset)
    }
}

/// The closest `i64` to `x`.
pub open spec fn saturated(x: int) -> int {
    if x < i64::MIN {
        i64::MIN as int
    } else if x > i64::MAX {
        i64::MAX as int
    } else {
        x
    }
}

/// The offset from the top of the active clip that a move by `delta_ms` asks
/// for: a position before the top counts as the top, and a sum past the
/// representable range as its end.
pub open spec fn asked_offset(pos_ms: int, delta_ms: int) -> int {
    saturated((if pos_ms < 0 { 0 } else { pos_ms }) + delta_ms)
}

/// Where a move by `delta_ms` lands from `pos_ms` into clip `index`. A clip that
/// is not measured cannot be positioned within: a move back that would stay in
/// the active clip lands at that clip's top.
pub open spec fn moved(durations: Seq<Option<i64>>, index: int, pos_ms: int, delta_ms: int) -> (
    int,
    int,
) {
    let offset = asked_offset(pos_ms, delta_ms);
    if delta_ms < 0 && offset > 0 && !measured(durations[index]) {
        (index, 0)
    } else {
        landing(durations, index, offset)
    }
}

/// `durations` are those of `len` clips, and every answer `duration_ms` can
/// give is the one they hold.
pub open spec fn answers<F: Fn(usize) -> Option<i64>>(
    duration_ms: F,
    durations: Seq<Option<i64>>,
    len: usize,
) -> bool {
    &&& durations.len() == len
    &&& forall|i: usize, r: Option<i64>|
        i < len && #[trigger] call_ensures(duration_ms, (i,), r) ==> r == durations[i as int]
}

/// All clips are measured.
pub open spec fn all_measured(durations: Seq<Option<i64>>) -> bool {
    forall|i: int| 0 <= i < durations.len() ==> measured(#[trigger] durations[i])
}

/// The duration of `n` clips in a row from clip `index` on.
pub open spec fn span(durations: Seq<Option<i64>>, index: int, n: nat) -> int
    decreases n,
{
    if n == 0 {
        0
    } else {
        durations[index]->0 + span(durations, after(index, durations.len() as int), (n - 1) as nat)
    }
}

/// The duration of the whole playlist.
pub open spec fn total(durations: Seq<Option<i64>>) -> int
    decreases durations.len(),
{
    if durations.len() == 0 {
        0
    } else {
        total(durations.drop_last()) + durations.last()->0
    }
}

/// Where a signed playhead move lands: walk the playlist from `pos_ms` into
/// the `active` clip by `delta_ms`, wrapping in both directions, to the
/// landing (index, offset_ms). After one full lap every clip's duration has
/// been seen, so what is left is reduced modulo the playlist's length and the
/// walk ends within one more lap, however long the move.
///
/// `duration_ms` answers per-clip durations. A clip whose duration it cannot
/// give cannot be positioned within: a move forward lands at the top of the
/// clip after it, a move back at its own top. When a clip always gets the same
/// answer, the landing is the one [`moved`] defines; answers that change from
/// call to call still give a clip of the playlist and a position that is not
/// negative.
pub fn seek_walk<F: Fn(usize) -> Option<i64>>(
    active: usize,
    pos_ms: i64,
    delta_ms: i64,
    len: usize,
    duration_ms: F,
) -> (place: (usize, i64))
    requires
        active < len,
        forall|i: usize| i < len ==> call_requires(duration_ms, (i,)),
    ensures
        place.0 < len,
        place.1 >= 0,
        forall|durations: Seq<Option<i64>>|
            #[trigger] answers(duration_ms, durations, len) ==> (
            place.0 as int,
            place.1 as int,
        ) == moved(durations, active as int, pos_ms as int, delta_ms as int),
{
    let from: i64 = if pos_ms < 0 { 0 } else { pos_ms };
    let offset: i64 = saturating_sum(from, delta_ms);
    if delta_ms < 0 && offset > 0 {
        let answer: Option<i64> = duration_ms(active);
        match answer {
            Some(duration) if duration > 0 => {},
            _ => {
                return (active, 0);
            },
        }
    }
    if offset >= 0 {
        return walk_on(active, offset, len, duration_ms);
    }
    match lap_back(active, offset, len, &duration_ms) {
        Lap::Landed { index, offset_ms } => (index, offset_ms),
        Lap::Around { lap_ms } => {
            let owed: i64 = ((-(offset as i128)) % (lap_ms as i128)) as i64;
            let left: i64 = if owed == 0 { 0 } else { lap_ms - owed };
            proof {
                lemma_owed(offset as int, lap_ms as int);
                let laps = offset as int / lap_ms as int;
                assert forall|d: Seq<Option<i64>>| #[trigger] answers(duration_ms, d, len) implies
                    landing(d, active as int, left as int) == landing(
                    d,
                    active as int,
                    offset as int,
                ) by {
                    lemma_laps(d, active as int, lap_ms as int, offset as int, laps);
                }
            }
            walk_on(active, left, len, duration_ms)
        },
    }
}

/// Whether a clip should be seeked to `offset_ms` before it plays: not for an
/// offset at or before its top, and not into the clip's last moments. A
/// duration that is not measured errs toward seeking.
pub fn should_seek_to(offset_ms: i64, duration_ms: Option<i64>) -> (seek: bool)
    ensures
        seek == (offset_ms > 0 && (measured(duration_ms) ==> offset_ms < duration_ms->0
            - SEEK_TAIL_GUARD_MS)),
        seek <==> offset_ms > 0 && (duration_ms is None || duration_ms->0 <= 0 || duration_ms->0
            - offset_ms > 2_000),
{
    if offset_ms <= 0 {
        return false;
    }
    match duration_ms {
        Some(d) if d > 0 => offset_ms < d - SEEK_TAIL_GUARD_MS,
        _ => true,
    }
}

/// What one lap of a walk came to.
enum Lap {
    /// The walk ended on a clip, at a position in it.
    Landed { index: usize, offset_ms: i64 },
    /// All clips were crossed, and took `lap_ms`.
    Around { lap_ms: i64 },
}

/// Walk at most one lap forward from the top of clip `start`, `offset` ms to
/// go.
fn lap_on<F: Fn(usize) -> Option<i64>>(
    start: usize,
    offset: i64,
    len: usize,
    duration_ms: &F,
) -> (lap: Lap)
    requires
        start < len,
        offset >= 0,
        forall|i: usize| i < len ==> call_requires(*duration_ms, (i,)),
    ensures
        lap matches Lap::Landed { index, offset_ms } ==> index < len && offset_ms >= 0,
        lap matches Lap::Around { lap_ms } ==> 0 < lap_ms <= offset,
        forall|d: Seq<Option<i64>>| #[trigger]
            answers(*duration_ms, d, len) ==> match lap {
                Lap::Landed { index, offset_ms } => (index as int, offset_ms as int) == landing(
                    d,
                    start as int,
                    offset as int,
                ),
                Lap::Around { lap_ms } => {
                    &&& lap_ms == span(d, start as int, len as nat)
                    &&& shifted(d, start as int, start as int, -lap_ms)
                },
            },
{
    let mut index: usize = start;
    let mut left: i64 = offset;
    let mut steps: usize = 0;
    let mut lap_ms: i64 = 0;
    while steps < len
        invariant
            start < len,
            index < len,
            steps <= len,
            steps <= lap_ms,
            left >= 0,
            left + lap_ms == offset,
            index == (if start + steps < len { start + steps } else { start + steps - len }),
            forall|i: usize| i < len ==> call_requires(*duration_ms, (i,)),
            forall|d: Seq<Option<i64>>| #[trigger]
                answers(*duration_ms, d, len) ==> {
                    &&& lap_ms == span(d, start as int, steps as nat)
                    &&& shifted(d, start as int, index as int, -lap_ms)
                },
        decreases len - steps,
    {
        let answer: Option<i64> = duration_ms(index);
        match answer {
            Some(duration) if duration > 0 => {
                if left < duration {
                    return Lap::Landed { index, offset_ms: left };
                }
                let next: usize = if index + 1 < len { index + 1 } else { 0 };
                proof {
                    lemma_neighbours(index as int, len as int);
                    assert forall|d: Seq<Option<i64>>| #[trigger]
                        answers(*duration_ms, d, len) implies {
                        &&& lap_ms + duration == span(d, start as int, steps as nat + 1)
                        &&& shifted(d, start as int, next as int, -(lap_ms + duration))
                    } by {
                        lemma_span_append(d, start as int, steps as nat);
                        lemma_nth_after(start as int, steps as nat, len as int);
                        assert forall|y: int| #[trigger]
                            landing(d, start as int, y) == landing(
                            d,
                            next as int,
                            y + -(lap_ms + duration),
                        ) by {
                            lemma_shift(d, index as int, y - lap_ms);
                        }
                    }
                }
                lap_ms = lap_ms + duration;
                left = left - duration;
                index = next;
                steps = steps + 1;
            },
            _ => {
                if left == 0 {
                    return Lap::Landed { index, offset_ms: 0 };
                }
                let next: usize = if index + 1 < len { index + 1 } else { 0 };
                proof {
                    lemma_neighbours(index as int, len as int);
                }
                return Lap::Landed { index: next, offset_ms: 0 };
            },
        }
    }
    Lap::Around { lap_ms }
}

/// Walk at most one lap backward from the top of clip `start`, `-offset` ms to
/// go.
fn lap_back<F: Fn(usize) -> Option<i64>>(
    start: usize,
    offset: i64,
    len: usize,
    duration_ms: &F,
) -> (lap: Lap)
    requires
        start < len,
        offset < 0,
        forall|i: usize| i < len ==> call_requires(*duration_ms, (i,)),
    ensures
        lap matches Lap::Landed { index, offset_ms } ==> index < len && offset_ms >= 0,
        lap matches Lap::Around { lap_ms } ==> 0 < lap_ms,
        forall|d: Seq<Option<i64>>| #[trigger]
            answers(*duration_ms, d, len) ==> match lap {
                Lap::Landed { index, offset_ms } => (index as int, offset_ms as int) == landing(
                    d,
                    start as int,
                    offset as int,
                ),
                Lap::Around { lap_ms } => shifted(d, start as int, start as int, -lap_ms),
            },
{
    let mut index: usize = start;
    let mut left: i64 = offset;
    let mut steps: usize = 0;
    while steps < len
        invariant
            start < len,
            index < len,
            steps <= len,
            left < 0,
            steps <= left - offset,
            index == (if steps <= start { start - steps } else { start - steps + len }),
            forall|i: usize| i < len ==> call_requires(*duration_ms, (i,)),
            forall|d: Seq<Option<i64>>| #[trigger]
                answers(*duration_ms, d, len) ==> shifted(
                    d,
                    index as int,
                    start as int,
                    offset - left,
                ),
        decreases len - steps,
    {
        let prev: usize = if index > 0 { index - 1 } else { len - 1 };
        proof {
            lemma_neighbours(index as int, len as int);
        }
        let answer: Option<i64> = duration_ms(prev);
        match answer {
            Some(duration) if duration > 0 => {
                proof {
                    assert forall|d: Seq<Option<i64>>| #[trigger]
                        answers(*duration_ms, d, len) implies {
                        &&& d[prev as int] == answer
                        &&& landing(d, index as int, left as int) == landing(
                            d,
                            start as int,
                            offset as int,
                        )
                        &&& shifted(d, prev as int, start as int, offset - (left + duration))
                    } by {
                        assert(landing(d, index as int, left as int) == landing(
                            d,
                            start as int,
                            left + (offset - left),
                        ));
                        assert forall|y: int| #[trigger]
                            landing(d, prev as int, y) == landing(
                            d,
                            start as int,
                            y + (offset - (left + duration)),
                        ) by {
                            lemma_shift(d, prev as int, y);
                            assert(landing(d, index as int, y - duration) == landing(
                                d,
                                start as int,
                                (y - duration) + (offset - left),
                            ));
                        }
                    }
                }
                left = left + duration;
                if left >= 0 {
                    return Lap::Landed { index: prev, offset_ms: left };
                }
                index = prev;
                steps = steps + 1;
            },
            _ => {
                proof {
                    assert forall|d: Seq<Option<i64>>| #[trigger]
                        answers(*duration_ms, d, len) implies landing(
                        d,
                        index as int,
                        left as int,
                    ) == landing(d, start as int, offset as int) by {
                        assert(landing(d, index as int, left as int) == landing(
                            d,
                            start as int,
                            left + (offset - left),
                        ));
                    }
                }
                return Lap::Landed { index: prev, offset_ms: 0 };
            },
        }
    }
    Lap::Around { lap_ms: left - offset }
}

/// Walk forward from the top of clip `start`, `offset` ms to go, over as many
/// laps as it takes.
fn walk_on<F: Fn(usize) -> Option<i64>>(
    start: usize,
    offset: i64,
    len: usize,
    duration_ms: F,
) -> (place: (usize, i64))
    requires
        start < len,
        offset >= 0,
        forall|i: usize| i < len ==> call_requires(duration_ms, (i,)),
    ensures
        place.0 < len,
        place.1 >= 0,
        forall|d: Seq<Option<i64>>| #[trigger]
            answers(duration_ms, d, len) ==> (place.0 as int, place.1 as int) == landing(
                d,
                start as int,
                offset as int,
            ),
{
    match lap_on(start, offset, len, &duration_ms) {
        Lap::Landed { index, offset_ms } => (index, offset_ms),
        Lap::Around { lap_ms } => {
            let left: i64 = offset % lap_ms;
            proof {
                let laps = offset as int / lap_ms as int;
                vstd::arithmetic::div_mod::lemma_fundamental_div_mod(offset as int, lap_ms as int);
                assert(laps * lap_ms == lap_ms * laps) by (nonlinear_arith);
                assert forall|d: Seq<Option<i64>>| #[trigger] answers(duration_ms, d, len) implies
                    landing(d, start as int, left as int) == landing(
                    d,
                    start as int,
                    offset as int,
                ) by {
                    lemma_laps(d, start as int, lap_ms as int, offset as int, laps);
                }
            }
            match lap_on(start, left, len, &duration_ms) {
                Lap::Landed { index, offset_ms } => (index, offset_ms),
                Lap::Around { lap_ms: _ } => (start, 0),
            }
        },
    }
}

/// What is left of a negative offset after whole laps is what a lap exceeds
/// the part of a lap it goes back by.
proof fn lemma_owed(offset: int, lap: int)
    requires
        offset < 0,
        lap > 0,
    ensures
        ({
            let owed = (-offset) % lap;
            let left = if owed == 0 { 0 } else { lap - owed };
            &&& 0 <= owed < lap
            &&& left == offset - (offset / lap) * lap
        }),
{
    let owed = (-offset) % lap;
    let q = (-offset) / lap;
    vstd::arithmetic::div_mod::lemma_fundamental_div_mod(-offset, lap);
    vstd::arithmetic::div_mod::lemma_fundamental_div_mod(offset, lap);
    assert(0 <= owed < lap && 0 <= offset % lap < lap) by (nonlinear_arith)
        requires
            lap > 0,
            owed == (-offset) % lap,
    ;
    let p = offset / lap;
    let r = offset % lap;
    assert(lap * q + owed + lap * p + r == 0);
    assert(lap * (q + p) + owed + r == 0) by (nonlinear_arith)
        requires
            lap * q + owed + lap * p + r == 0,
    ;
    assert(q + p == 0 || q + p == -1) by (nonlinear_arith)
        requires
            lap * (q + p) + owed + r == 0,
            0 <= owed < lap,
            0 <= r < lap,
            lap > 0,
    ;
    assert((q + p == 0 ==> lap * (q + p) == 0) && (q + p == -1 ==> lap * (q + p) == -lap))
        by (nonlinear_arith);
    assert(p * lap == lap * p) by (nonlinear_arith);
}

/// `a + b`, or the end of the range the sum passes.
pub(crate) fn saturating_sum(a: i64, b: i64) -> (sum: i64)
    ensures
        sum == saturated(a + b),
{
    match a.checked_add(b) {
        Some(sum) => sum,
        None => if b > 0 {
            i64::MAX
        } else {
            i64::MIN
        },
    }
}

/// Counting from clip `index` lands where counting from clip `origin` does,
/// with `by` more to go.
spec fn shifted(durations: Seq<Option<i64>>, index: int, origin: int, by: int) -> bool {
    forall|y: int| #[trigger]
        landing(durations, index, y) == landing(durations, origin, y + by)
}

/// The clip `n` after clip `index`, wrapping.
spec fn nth_after(index: int, n: nat, len: int) -> int
    decreases n,
{
    if n == 0 {
        index
    } else {
        nth_after(after(index, len), (n - 1) as nat, len)
    }
}

pub(crate) proof fn lemma_neighbours(index: int, len: int)
    requires
        0 <= index < len,
    ensures
        after(index, len) == (if index + 1 < len { index + 1 } else { 0 }),
        before(index, len) == (if index > 0 { index - 1 } else { len - 1 }),
        before(after(index, len), len) == index,
        after(before(index, len), len) == index,
{
    if index + 1 < len {
        vstd::arithmetic::div_mod::lemma_small_mod((index + 1) as nat, len as nat);
        vstd::arithmetic::div_mod::lemma_mod_add_multiples_vanish(index, len);
        vstd::arithmetic::div_mod::lemma_small_mod(index as nat, len as nat);
    } else {
        vstd::arithmetic::div_mod::lemma_mod_self_0(len);
        vstd::arithmetic::div_mod::lemma_small_mod((len - 1) as nat, len as nat);
    }
    if index > 0 {
        vstd::arithmetic::div_mod::lemma_mod_add_multiples_vanish(index - 1, len);
        vstd::arithmetic::div_mod::lemma_small_mod((index - 1) as nat, len as nat);
        vstd::arithmetic::div_mod::lemma_small_mod(index as nat, len as nat);
    } else {
        vstd::arithmetic::div_mod::lemma_small_mod((len - 1) as nat, len as nat);
        vstd::arithmetic::div_mod::lemma_mod_self_0(len);
    }
}

/// Counting from the top of a measured clip, or from the top of the next one
/// with the clip's duration taken off, lands in the same place.
proof fn lemma_shift(durations: Seq<Option<i64>>, index: int, offset: int)
    requires
        0 <= index < durations.len(),
        measured(durations[index]),
    ensures
        landing(durations, index, offset) == landing(
            durations,
            after(index, durations.len() as int),
            offset - durations[index]->0,
        ),
{
    lemma_neighbours(index, durations.len() as int);
}

proof fn lemma_nth_after(index: int, n: nat, len: int)
    requires
        0 <= index < len,
        n <= len,
    ensures
        nth_after(index, n, len) == (if index + n < len { index + n } else { index + n - len }),
    decreases n,
{
    if n > 0 {
        lemma_neighbours(index, len);
        lemma_nth_after(after(index, len), (n - 1) as nat, len);
    }
}

proof fn lemma_span_append(durations: Seq<Option<i64>>, index: int, n: nat)
    requires
        0 <= index < durations.len(),
    ensures
        span(durations, index, n + 1) == span(durations, index, n) + durations[nth_after(
            index,
            n,
            durations.len() as int,
        )]->0,
    decreases n,
{
    let len = durations.len() as int;
    if n == 0 {
        assert(span(durations, after(index, len), 0) == 0);
    } else {
        lemma_neighbours(index, len);
        lemma_span_append(durations, after(index, len), (n - 1) as nat);
    }
}

/// If a lap of `lap` ms leaves every landing from `index` alone, so does any
/// number of laps.
proof fn lemma_laps(durations: Seq<Option<i64>>, index: int, lap: int, offset: int, laps: int)
    requires
        forall|y: int|
            #[trigger] landing(durations, index, y) == landing(durations, index, y - lap),
    ensures
        landing(durations, index, offset) == landing(durations, index, offset - laps * lap),
    decreases (if laps < 0 { -laps } else { laps }),
{
    if laps > 0 {
        lemma_laps(durations, index, lap, offset, laps - 1);
        assert(offset - laps * lap == offset - (laps - 1) * lap - lap) by (nonlinear_arith);
        assert(landing(durations, index, offset - (laps - 1) * lap) == landing(
            durations,
            index,
            offset - (laps - 1) * lap - lap,
        ));
    } else if laps < 0 {
        lemma_laps(durations, index, lap, offset, laps + 1);
        assert(offset - (laps + 1) * lap == offset - laps * lap - lap) by (nonlinear_arith);
        assert(landing(durations, index, offset - laps * lap) == landing(
            durations,
            index,
            offset - laps * lap - lap,
        ));
    } else {
        assert(laps * lap == 0) by (nonlinear_arith)
            requires
                laps == 0,
        ;
    }
}

proof fn lemma_measured_run(durations: Seq<Option<i64>>, index: int, n: nat, offset: int)
    requires
        0 <= index < durations.len(),
        all_measured(durations),
    ensures
        landing(durations, index, offset) == landing(
            durations,
            nth_after(index, n, durations.len() as int),
            offset - span(durations, index, n),
        ),
    decreases n,
{
    if n > 0 {
        let len = durations.len() as int;
        lemma_neighbours(index, len);
        lemma_shift(durations, index, offset);
        lemma_measured_run(
            durations,
            after(index, len),
            (n - 1) as nat,
            offset - durations[index]->0,
        );
    }
}

proof fn lemma_span_from_start(durations: Seq<Option<i64>>, n: nat)
    requires
        n <= durations.len(),
        durations.len() > 0,
    ensures
        span(durations, 0, n) == total(durations.take(n as int)),
    decreases n,
{
    if n > 0 {
        lemma_span_from_start(durations, (n - 1) as nat);
        lemma_span_append(durations, 0, (n - 1) as nat);
        lemma_nth_after(0, (n - 1) as nat, durations.len() as int);
        assert(durations.take(n as int).drop_last() =~= durations.take(n as int - 1));
    }
}

/// A whole lap takes as long from one clip as from another.
proof fn lemma_lap_is_total(durations: Seq<Option<i64>>, index: int)
    requires
        0 <= index < durations.len(),
    ensures
        span(durations, index, durations.len()) == total(durations),
    decreases index,
{
    let len = durations.len() as int;
    if index == 0 {
        lemma_span_from_start(durations, durations.len());
        assert(durations.take(len) =~= durations);
    } else {
        let prev = index - 1;
        lemma_lap_is_total(durations, prev);
        lemma_neighbours(prev, len);
        lemma_span_append(durations, index, (len - 1) as nat);
        lemma_nth_after(index, (len - 1) as nat, len);
    }
}

/// Wherever a move lands, it lands on a clip of the playlist: inside the clip
/// when it is measured, else at its top.
pub proof fn law_a_move_lands_on_a_clip(
    durations: Seq<Option<i64>>,
    index: int,
    pos_ms: int,
    delta_ms: int,
)
    requires
        0 <= index < durations.len(),
    ensures
        ({
            let (clip, position) = moved(durations, index, pos_ms, delta_ms);
            &&& 0 <= clip < durations.len()
            &&& 0 <= position
            &&& measured(durations[clip]) ==> position < durations[clip]->0
            &&& !measured(durations[clip]) ==> position == 0
        }),
{
    lemma_landing_is_on_a_clip(durations, index, asked_offset(pos_ms, delta_ms));
}

/// A move back within an active clip that is not measured lands at that clip's
/// own top.
pub proof fn law_a_move_back_in_an_unmeasured_clip_lands_at_its_top(
    durations: Seq<Option<i64>>,
    index: int,
    pos_ms: int,
    delta_ms: int,
)
    requires
        0 <= index < durations.len(),
        durations[index] is None || durations[index]->0 <= 0,
        delta_ms < 0,
        pos_ms + delta_ms >= 0,
    ensures
        moved(durations, index, pos_ms, delta_ms) == (index, 0int),
{
}

proof fn lemma_landing_is_on_a_clip(
    durations: Seq<Option<i64>>,
    index: int,
    offset: int,
)
    requires
        0 <= index < durations.len(),
    ensures
        ({
            let (clip, position) = landing(durations, index, offset);
            &&& 0 <= clip < durations.len()
            &&& 0 <= position
            &&& measured(durations[clip]) ==> position < durations[clip]->0
            &&& !measured(durations[clip]) ==> position == 0
        }),
    decreases (if offset < 0 { -offset } else { offset }),
{
    let len = durations.len() as int;
    lemma_neighbours(index, len);
    if offset < 0 {
        let prev = before(index, len);
        if measured(durations[prev]) && offset + durations[prev]->0 < 0 {
            lemma_landing_is_on_a_clip(
                durations,
                prev,
                offset + durations[prev]->0,
            );
        }
    } else if measured(durations[index]) && offset >= durations[index]->0 {
        lemma_landing_is_on_a_clip(
            durations,
            after(index, len),
            offset - durations[index]->0,
        );
    }
}

proof fn lemma_whole_laps(durations: Seq<Option<i64>>, index: int, offset: int, laps: int)
    requires
        0 <= index < durations.len(),
        all_measured(durations),
    ensures
        landing(durations, index, offset + laps * total(durations)) == landing(
            durations,
            index,
            offset,
        ),
{
    let lap = total(durations);
    lemma_lap_is_total(durations, index);
    lemma_nth_after(index, durations.len(), durations.len() as int);
    assert forall|y: int|
        #[trigger] landing(durations, index, y) == landing(durations, index, y - lap) by {
        lemma_measured_run(durations, index, durations.len(), y);
    }
    lemma_laps(durations, index, lap, offset + laps * lap, laps);
}

/// The offset that a move asks for is in range, and so is taken as it is.
pub open spec fn in_range(pos_ms: int, delta_ms: int) -> bool {
    pos_ms >= 0 && i64::MIN <= pos_ms + delta_ms <= i64::MAX
}

/// Moves that differ by a whole number of playlist lengths land in the same
/// place: a move longer than the playlist wraps modulo its length, and an
/// exact multiple of the length lands where it started.
pub proof fn law_whole_laps_change_nothing(
    durations: Seq<Option<i64>>,
    index: int,
    pos_ms: int,
    delta_ms: int,
    laps: int,
)
    requires
        0 <= index < durations.len(),
        all_measured(durations),
        in_range(pos_ms, delta_ms),
        in_range(pos_ms, delta_ms + laps * total(durations)),
    ensures
        moved(durations, index, pos_ms, delta_ms + laps * total(durations)) == moved(
            durations,
            index,
            pos_ms,
            delta_ms,
        ),
{
    assert(measured(durations[index]));
    lemma_whole_laps(durations, index, pos_ms + delta_ms, laps);
}

/// Two moves in a row land where their sum lands; so a move is undone by its
/// opposite.
pub proof fn law_moves_add_up(
    durations: Seq<Option<i64>>,
    index: int,
    pos_ms: int,
    first_ms: int,
    second_ms: int,
)
    requires
        0 <= index < durations.len(),
        all_measured(durations),
        in_range(pos_ms, first_ms),
        in_range(pos_ms, first_ms + second_ms),
        in_range(moved(durations, index, pos_ms, first_ms).1, second_ms),
    ensures
        ({
            let (clip, position) = moved(durations, index, pos_ms, first_ms);
            moved(durations, clip, position, second_ms) == moved(
                durations,
                index,
                pos_ms,
                first_ms + second_ms,
            )
        }),
{
    assert(measured(durations[index]));
    lemma_landing_is_on_a_clip(durations, index, pos_ms + first_ms);
    let (clip, position) = landing(durations, index, pos_ms + first_ms);
    assert(measured(durations[clip]));
    lemma_moves_add_up(durations, index, pos_ms + first_ms, second_ms);
}

proof fn lemma_moves_add_up(
    durations: Seq<Option<i64>>,
    index: int,
    offset: int,
    delta: int,
)
    requires
        0 <= index < durations.len(),
        all_measured(durations),
    ensures
        ({
            let (clip, position) = landing(durations, index, offset);
            landing(durations, clip, position + delta) == landing(durations, index, offset + delta)
        }),
    decreases (if offset < 0 { -offset } else { offset }),
{
    let len = durations.len() as int;
    lemma_neighbours(index, len);
    if offset < 0 {
        let prev = before(index, len);
        assert(measured(durations[prev]));
        let rest = offset + durations[prev]->0;
        lemma_shift(durations, prev, rest + delta);
        if rest < 0 {
            lemma_moves_add_up(durations, prev, rest, delta);
        }
    } else {
        assert(measured(durations[index]));
        if offset >= durations[index]->0 {
            let rest = offset - durations[index]->0;
            lemma_shift(durations, index, offset + delta);
            lemma_moves_add_up(durations, after(index, len), rest, delta);
        }
    }
}

/// A move that stays within the active clip lands on that clip, as far on as
/// the move goes, however many clips the playlist has.
pub proof fn law_a_move_within_the_clip_goes_its_span(
    durations: Seq<Option<i64>>,
    index: int,
    pos_ms: int,
    delta_ms: int,
)
    requires
        0 <= index < durations.len(),
        durations[index] is Some,
        0 <= pos_ms,
        0 <= pos_ms + delta_ms < durations[index]->0,
    ensures
        moved(durations, index, pos_ms, delta_ms) == (index, pos_ms + delta_ms),
{
}

/// A move past the end of the active clip goes on from the top of the next one,
/// the last clip's being the first, with what is left of it.
pub proof fn law_a_move_past_the_end_goes_on_in_the_next_clip(
    durations: Seq<Option<i64>>,
    index: int,
    pos_ms: int,
    delta_ms: int,
)
    requires
        0 <= index < durations.len(),
        durations[index] is Some,
        0 < durations[index]->0 <= pos_ms + delta_ms <= i64::MAX,
        0 <= pos_ms,
    ensures
        moved(durations, index, pos_ms, delta_ms) == moved(
            durations,
            if index + 1 < durations.len() {
                index + 1
            } else {
                0
            },
            0,
            pos_ms + delta_ms - durations[index]->0,
        ),
{
    lemma_neighbours(index, durations.len() as int);
}

/// A move back past the top of the active clip goes on from the end of the one
/// before it, the first clip's being the last, with what is left of it.
pub proof fn law_a_move_past_the_top_goes_on_in_the_clip_before(
    durations: Seq<Option<i64>>,
    index: int,
    pos_ms: int,
    delta_ms: int,
)
    requires
        0 <= index < durations.len(),
        0 <= pos_ms,
        i64::MIN <= pos_ms + delta_ms < 0,
        ({
            let prev = if index > 0 { index - 1 } else { durations.len() - 1 };
            durations[prev] is Some && durations[prev]->0 > 0
        }),
    ensures
        ({
            let prev = if index > 0 { index - 1 } else { durations.len() - 1 };
            moved(durations, index, pos_ms, delta_ms) == moved(
                durations,
                prev,
                durations[prev]->0 as int,
                pos_ms + delta_ms,
            )
        }),
{
    lemma_neighbours(index, durations.len() as int);
}

/// A clip without a duration cannot be positioned within. From its top a move
/// of nothing stays there; a move on from it lands at the top of the clip after
/// it; a move back within it lands at its own top, and one back into it from
/// the clip after it does too.
pub proof fn law_a_clip_without_a_duration_is_a_boundary(
    durations: Seq<Option<i64>>,
    index: int,
    pos_ms: int,
    delta_ms: int,
)
    requires
        0 <= index < durations.len(),
        durations[index] is None || durations[index]->0 <= 0,
        0 <= pos_ms,
        i64::MIN <= pos_ms + delta_ms <= i64::MAX,
    ensures
        ({
            let next = if index + 1 < durations.len() { index + 1 } else { 0 };
            &&& pos_ms + delta_ms == 0 ==> moved(durations, index, pos_ms, delta_ms) == (index, 0int)
            &&& pos_ms + delta_ms > 0 && delta_ms >= 0 ==> moved(durations, index, pos_ms, delta_ms)
                == (next, 0int)
            &&& pos_ms + delta_ms > 0 && delta_ms < 0 ==> moved(durations, index, pos_ms, delta_ms)
                == (index, 0int)
            &&& pos_ms + delta_ms < 0 ==> moved(durations, next, pos_ms, delta_ms) == (index, 0int)
        }),
{
    let len = durations.len() as int;
    lemma_neighbours(index, len);
    let next = if index + 1 < len { index + 1 } else { 0 };
    lemma_neighbours(next, len);
}

/// A position before the top counts as the top, and a move past the range of
/// positions as one to its end.
pub proof fn law_a_move_is_kept_in_range(
    durations: Seq<Option<i64>>,
    index: int,
    pos_ms: int,
    delta_ms: int,
)
    requires
        0 <= index < durations.len(),
    ensures
        pos_ms < 0 ==> moved(durations, index, pos_ms, delta_ms) == moved(
            durations,
            index,
            0,
            delta_ms,
        ),
        pos_ms >= 0 && delta_ms >= 0 && pos_ms + delta_ms > i64::MAX ==> moved(
            durations,
            index,
            pos_ms,
            delta_ms,
        ) == moved(durations, index, 0, i64::MAX as int),
{
}

/// Durations that are what the answers are count as the answers, however many
/// clips there are.
pub proof fn law_what_is_answered_counts<F: Fn(usize) -> Option<i64>>(
    duration_ms: F,
    durations: Seq<Option<i64>>,
    len: usize,
)
    requires
        durations.len() == len,
        forall|i: usize, r: Option<i64>|
            i < len && #[trigger] call_ensures(duration_ms, (i,), r) ==> r == durations[i as int],
    ensures
        answers(duration_ms, durations, len),
{
}

} // verus!
