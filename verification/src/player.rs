//! The clip engine: which clips are live, what each boundary, failure and
//! command does to them, and where the playhead is.
//!
//! The pipeline itself is driven from outside. A clip's decode bin is known
//! here by a number, and each operation answers with what is to be done to the
//! bins: which to tear down, which to bring up, which to end.

use crate::playlist::{back_index, drawn_index, random_draw, skip_index, at_least_one, ClipFile};
use crate::seek::{answers, measured, moved, seek_walk, should_seek_to, SEEK_TAIL_GUARD_MS};
use crate::streak;
use crate::text;
use std::collections::HashMap;
use vstd::prelude::*;

verus! {

/// A live decode bin and the bookkeeping a playback command needs.
#[derive(Clone, Copy, Debug)]
pub struct Clip {
    /// The decode bin.
    pub bin: u64,
    /// The playlist entry it plays.
    pub index: usize,
    /// Seek offset this clip started at, ms (0 = top of clip).
    pub offset_ms: i64,
    /// Pipeline running time when this clip became active, ns; `None` until
    /// then.
    pub start_rt: Option<u64>,
}

/// The playlist and the clips of it that are live.
pub struct Player {
    /// The playlist, in play order. It never changes.
    pub files: Vec<ClipFile>,
    /// Live clips in play order: the active one, then the prerolled next.
    pub clips: Vec<Clip>,
    /// Clip bins stop at parsed H.264 instead of decoding, and seeks snap to
    /// keyframes: a compressed stream cannot start inside a group of pictures.
    pub passthrough: bool,
    /// Consecutive clip failures absorbed without a clip reaching its end.
    /// Once it exceeds the playlist's length the whole corpus is bad.
    pub recoveries: usize,
}

/// A decode bin to bring up and link behind the ones that are there.
pub struct SpawnPlan {
    pub bin: u64,
    pub index: usize,
    pub uri: String,
    pub offset_ms: i64,
    /// Stop at parsed H.264, without a decoder.
    pub compressed: bool,
    /// Hold the bin's pad until the clip is seeked; otherwise link it as it
    /// is.
    pub hold_for_seek: bool,
}

/// What redirecting playback asks for, in order.
pub struct Redirect {
    /// Prerolled clips to tear down.
    pub dropped: Vec<Clip>,
    /// The clip to bring up in their place.
    pub spawned: SpawnPlan,
    /// The active clip's bin, to be ended so that playback cuts over.
    pub finish: u64,
}

/// Where an error on the pipeline's bus came from.
pub struct ErrorSource {
    /// The source is still part of the pipeline.
    pub under_pipeline: bool,
    /// The decode bins that the source is part of.
    pub bins: Vec<u64>,
}

/// What an error came to.
pub enum ClipError {
    /// From a bin that is already gone: the echo of a failure dealt with.
    Echo,
    /// Not a clip's to absorb.
    NotAClip,
    /// One failure too many in a row: the whole corpus is bad.
    GaveUp { failed: Clip },
    /// The failed clip is to be torn down; `spawned` takes its place.
    Recovered { failed: Clip, was_active: bool, spawned: SpawnPlan },
}

/// How exactly a seek hits its target.
#[derive(Clone, Copy, Debug, PartialEq, Eq, Structural)]
pub enum SeekMode {
    /// The keyframe at or before the target.
    Keyframe,
    /// The target itself.
    Accurate,
}

/// A seek to issue on a clip before its first buffer plays.
#[derive(Clone, Copy, Debug)]
pub struct SeekPlan {
    pub offset_ms: i64,
    pub mode: SeekMode,
}

/// What passes a pad.
#[derive(Clone, Copy, Debug, PartialEq, Eq, Structural)]
pub enum PadItem {
    Buffer,
    EndOfStream,
    OtherEvent,
}

/// What to do with what reaches the pad a clip feeds the splice through.
#[derive(Clone, Copy, Debug, PartialEq, Eq, Structural)]
pub enum SpliceVerdict {
    Pass,
    /// The clip is finished: drop the event and deal with the boundary.
    DropAndFinish,
}

/// What to do with what reaches a pad that is held for a seek.
#[derive(Clone, Copy, Debug, PartialEq, Eq, Structural)]
pub enum HoldVerdict {
    Drop,
    Hold,
    /// Hold it, and seek the clip: its first buffer shows that it is up.
    HoldAndSeek,
}

/// A pad held for a seek.
pub struct HeldPad {
    /// The seek has been asked for.
    pub scheduled: bool,
}

/// Clip durations by playlist index, in ms, as they are found.
pub struct Durations {
    pub known: HashMap<usize, i64>,
}

/// Where a playhead move starts from.
#[derive(Clone, Copy, Debug)]
pub struct SeekOrigin {
    pub active: usize,
    pub pos_ms: i64,
    pub len: usize,
}

/// A clip as it is when its bin is brought up.
pub open spec fn fresh(bin: u64, index: int, offset_ms: i64) -> Clip {
    Clip { bin, index: index as usize, offset_ms, start_rt: None }
}

/// The playlist index after `index`, wrapping.
pub open spec fn successor(index: int, len: int) -> int {
    (index + 1) % len
}

/// `clips` with the active one marked active since running time `rt` (the
/// pipeline's start when the running time is not known).
pub open spec fn stamped(clips: Seq<Clip>, rt: Option<u64>) -> Seq<Clip> {
    if clips.len() == 0 {
        clips
    } else {
        clips.update(
            0,
            Clip { start_rt: Some(if rt is Some { rt->0 } else { 0 }), ..clips[0] },
        )
    }
}

/// `clips` without those of `bin`.
pub open spec fn without_bin(clips: Seq<Clip>, bin: u64) -> Seq<Clip> {
    clips.filter(|c: Clip| c.bin != bin)
}

/// The live clips after the clip of `bin` ended: it is gone, the next one is
/// active, and that one's successor is prerolled in bin `spawned`.
pub open spec fn after_end(
    clips: Seq<Clip>,
    bin: u64,
    rt: Option<u64>,
    spawned: u64,
    len: int,
) -> Seq<Clip> {
    let rest = stamped(without_bin(clips, bin), rt);
    if rest.len() == 0 {
        rest
    } else {
        rest.push(fresh(spawned, successor(rest[0].index as int, len), 0))
    }
}

/// The live clips once playback is redirected: the active one, and behind it
/// nothing but the clip to cut to.
pub open spec fn after_redirect(clips: Seq<Clip>, bin: u64, index: int, offset_ms: i64) -> Seq<Clip> {
    clips.take(1).push(fresh(bin, index, offset_ms))
}

/// Position of the first clip whose bin is among `bins`; the number of clips
/// when there is none.
pub open spec fn first_of_bins(clips: Seq<Clip>, bins: Seq<u64>) -> int
    decreases clips.len(),
{
    if clips.len() == 0 || bins.contains(clips[0].bin) {
        0
    } else {
        1 + first_of_bins(clips.drop_first(), bins)
    }
}

/// The clip that follows a failure of `clips[at]`: the one after the clip that
/// is promoted when the active one failed, the one after the failed clip
/// otherwise.
pub open spec fn replacement(clips: Seq<Clip>, at: int, len: int) -> int {
    let base = if at == 0 && clips.len() > 1 { clips[1].index } else { clips[at].index };
    successor(base as int, len)
}

/// The live clips after a failure of `clips[at]` was absorbed.
pub open spec fn after_failure(
    clips: Seq<Clip>,
    at: int,
    rt: Option<u64>,
    spawned: u64,
    len: int,
) -> Seq<Clip> {
    let rest = clips.remove(at);
    (if at == 0 { stamped(rest, rt) } else { rest }).push(
        fresh(spawned, replacement(clips, at, len), 0),
    )
}

/// Milliseconds since the clip became active, by the running time; 0 when the
/// clock is behind.
pub open spec fn elapsed_ms(now: u64, start: u64) -> i64 {
    let gone = now / 1_000_000 - start / 1_000_000;
    if gone < 0 {
        0
    } else {
        gone as i64
    }
}

/// The position in a clip at running time `now`: the offset it started at plus
/// the time since it became active; the offset alone until then.
pub open spec fn position(clip: Clip, now: Option<u64>) -> i64 {
    match (now, clip.start_rt) {
        (Some(n), Some(s)) => clip.offset_ms.wrapping_add(elapsed_ms(n, s)),
        _ => clip.offset_ms,
    }
}

/// The file name of a clip; empty when it is not valid Unicode.
pub open spec fn basename(file: ClipFile) -> Seq<char> {
    match file.name {
        Some(name) => name@,
        None => Seq::empty(),
    }
}

/// The file's name is `name`.
pub open spec fn is_named(file: ClipFile, name: Seq<char>) -> bool {
    file.name matches Some(n) && n@ == name
}

/// Index of the first file of that name.
pub open spec fn found_at(files: Seq<ClipFile>, name: Seq<char>, index: int) -> bool {
    &&& 0 <= index < files.len()
    &&& is_named(files[index], name)
    &&& forall|j: int| 0 <= j < index ==> !is_named(#[trigger] files[j], name)
}

/// No file has that name.
pub open spec fn not_found(files: Seq<ClipFile>, name: Seq<char>) -> bool {
    forall|j: int| 0 <= j < files.len() ==> !is_named(#[trigger] files[j], name)
}

impl SpawnPlan {
    /// The plan brings up `index` of the player's playlist in `bin`, seeked to
    /// `offset_ms`.
    pub open spec fn plays(
        self,
        files: Seq<ClipFile>,
        passthrough: bool,
        bin: u64,
        index: int,
        offset_ms: i64,
    ) -> bool {
        &&& self.bin == bin
        &&& self.index == index
        &&& self.uri@ == "file://"@ + files[index].path@
        &&& self.offset_ms == offset_ms
        &&& self.compressed == passthrough
        &&& self.hold_for_seek == (offset_ms > 0)
    }
}

impl Redirect {
    /// The redirect, from clips `clips`, to `index` seeked to `offset_ms` in
    /// `bin`.
    pub open spec fn cuts_to(
        self,
        files: Seq<ClipFile>,
        passthrough: bool,
        clips: Seq<Clip>,
        bin: u64,
        index: int,
        offset_ms: i64,
    ) -> bool {
        &&& self.dropped@ == clips.skip(1)
        &&& self.spawned.plays(files, passthrough, bin, index, offset_ms)
        &&& self.finish == clips[0].bin
    }
}

impl ClipError {
    /// Whether the error needs no more attention: the pipeline plays on.
    pub fn absorbed(&self) -> (yes: bool)
        ensures
            yes == (self is Echo || self is Recovered),
    {
        match self {
            ClipError::Echo => true,
            ClipError::NotAClip => false,
            ClipError::GaveUp { failed: _ } => false,
            ClipError::Recovered { failed: _, was_active: _, spawned: _ } => true,
        }
    }
}

impl Player {
    /// The playlist holds a clip, and every live clip is one of it.
    pub open spec fn wf(&self) -> bool {
        &&& self.files@.len() > 0
        &&& forall|i: int|
            0 <= i < self.clips@.len() ==> (#[trigger] self.clips@[i]).index < self.files@.len()
    }

    /// All but the clips and the failure count is as it was.
    pub open spec fn same_setup(&self, other: &Player) -> bool {
        self.files == other.files && self.passthrough == other.passthrough
    }

    /// A player of `files` with no live clip yet.
    pub fn new(files: Vec<ClipFile>, passthrough: bool) -> (player: Player)
        requires
            files@.len() > 0,
        ensures
            player.wf(),
            player.files == files,
            player.passthrough == passthrough,
            player.clips@ == Seq::<Clip>::empty(),
            player.recoveries == 0,
    {
        Player { files, clips: Vec::new(), passthrough, recoveries: 0 }
    }

    /// The `file://` URI of playlist entry `index`.
    pub fn uri_at(&self, index: usize) -> (uri: String)
        requires
            index < self.files@.len(),
        ensures
            uri@ == "file://"@ + self.files@[index as int].path@,
    {
        "file://".to_string().concat(self.files[index].path.as_str())
    }

    /// The file name of playlist entry `index`; empty when it is not valid
    /// Unicode.
    pub fn basename_at(&self, index: usize) -> (name: String)
        requires
            index < self.files@.len(),
        ensures
            name@ == basename(self.files@[index as int]),
    {
        match &self.files[index].name {
            Some(name) => name.clone(),
            None => String::new(),
        }
    }

    /// Playlist index of the clip whose file name is `name`, if any: the first
    /// when there are several.
    pub fn find(&self, name: &str) -> (index: Option<usize>)
        ensures
            match index {
                Some(i) => found_at(self.files@, name@, i as int),
                None => not_found(self.files@, name@),
            },
    {
        let mut i: usize = 0;
        while i < self.files.len()
            invariant
                i <= self.files@.len(),
                forall|j: int| 0 <= j < i ==> !is_named(#[trigger] self.files@[j], name@),
            decreases self.files.len() - i,
        {
            if let Some(n) = &self.files[i].name {
                if text::same(n.as_str(), name) {
                    return Some(i);
                }
            }
            i = i + 1;
        }
        None
    }

    /// A clip of the playlist, picked at random.
    pub fn random_index(&self) -> (index: usize)
        requires
            self.files@.len() > 0,
        ensures
            index < self.files@.len(),
    {
        drawn_index(random_draw(), self.files.len())
    }

    /// Playlist index of the active clip; 0 when nothing is live.
    pub fn active_index(&self) -> (index: usize)
        ensures
            index == (if self.clips@.len() > 0 { self.clips@[0].index } else { 0 }),
    {
        if self.clips.len() > 0 {
            self.clips[0].index
        } else {
            0
        }
    }

    /// Bring up playlist entry `index` in `bin`, behind the clips that are
    /// live. The new clip prerolls at once but plays only when every earlier
    /// one has finished. A positive `offset_ms` seeks the clip before that.
    pub fn spawn(&mut self, bin: u64, index: usize, offset_ms: i64) -> (plan: SpawnPlan)
        requires
            old(self).wf(),
            index < old(self).files@.len(),
        ensures
            final(self).wf(),
            final(self).same_setup(old(self)),
            final(self).recoveries == old(self).recoveries,
            final(self).clips@ == old(self).clips@.push(fresh(bin, index as int, offset_ms)),
            plan.plays(old(self).files@, old(self).passthrough, bin, index as int, offset_ms),
    {
        let uri: String = self.uri_at(index);
        self.clips.push(Clip { bin, index, offset_ms, start_rt: None });
        SpawnPlan {
            bin,
            index,
            uri,
            offset_ms,
            compressed: self.passthrough,
            hold_for_seek: offset_ms > 0,
        }
    }

    /// Bring up the first two clips: the one to resume, else a random one, and
    /// its successor.
    pub fn start(
        &mut self,
        resume: Option<(usize, i64)>,
        active_bin: u64,
        next_bin: u64,
    ) -> (plans: (SpawnPlan, SpawnPlan))
        requires
            old(self).wf(),
            old(self).clips@.len() == 0,
            resume matches Some((i, _)) ==> i < old(self).files@.len(),
        ensures
            final(self).wf(),
            final(self).same_setup(old(self)),
            final(self).recoveries == old(self).recoveries,
            resume matches Some((i, offset)) ==> plans.0.index == i && plans.0.offset_ms == offset,
            resume is None ==> plans.0.index < old(self).files@.len() && plans.0.offset_ms == 0,
            plans.0.plays(
                old(self).files@,
                old(self).passthrough,
                active_bin,
                plans.0.index as int,
                plans.0.offset_ms,
            ),
            plans.1.plays(
                old(self).files@,
                old(self).passthrough,
                next_bin,
                successor(plans.0.index as int, old(self).files@.len() as int),
                0,
            ),
            final(self).clips@ == seq![
                fresh(active_bin, plans.0.index as int, plans.0.offset_ms),
                fresh(
                    next_bin,
                    successor(plans.0.index as int, old(self).files@.len() as int),
                    0,
                ),
            ],
    {
        let (first, offset_ms) = match resume {
            Some((i, offset)) => (i, offset),
            None => (self.random_index(), 0),
        };
        let active: SpawnPlan = self.spawn(active_bin, first, offset_ms);
        let next: usize = self.next_index(first);
        let next: SpawnPlan = self.spawn(next_bin, next, 0);
        assert(self.clips@ =~= seq![
            fresh(active_bin, first as int, offset_ms),
            fresh(next_bin, successor(first as int, self.files@.len() as int), 0),
        ]);
        (active, next)
    }

    fn next_index(&self, index: usize) -> (next: usize)
        requires
            index < self.files@.len(),
        ensures
            next == successor(index as int, self.files@.len() as int),
            next < self.files@.len(),
    {
        let len: usize = self.files.len();
        (index + 1) % len
    }

    /// The seek to issue on a clip that asked for `offset_ms`, now that its
    /// duration is known (or known not to be). `None`: it starts at its top.
    pub fn plan_seek(&self, offset_ms: i64, duration_ms: Option<i64>) -> (plan: Option<SeekPlan>)
        ensures
            plan is Some <==> offset_ms > 0 && (measured(duration_ms) ==> offset_ms < duration_ms->0
                - SEEK_TAIL_GUARD_MS),
            plan is Some <==> offset_ms > 0 && (duration_ms is None || duration_ms->0 <= 0
                || duration_ms->0 - offset_ms > 2_000),
            plan matches Some(p) ==> p.offset_ms == offset_ms && p.mode == (if self.passthrough {
                SeekMode::Keyframe
            } else {
                SeekMode::Accurate
            }),
    {
        if should_seek_to(offset_ms, duration_ms) {
            let mode: SeekMode = if self.passthrough {
                SeekMode::Keyframe
            } else {
                SeekMode::Accurate
            };
            Some(SeekPlan { offset_ms, mode })
        } else {
            None
        }
    }

    /// Record the offset the clip in `bin` actually starts at: that of the
    /// seek that was planned, if it was taken, else its top.
    pub fn finish_seek(&mut self, bin: u64, plan: Option<SeekPlan>, taken: bool) -> (offset_ms: i64)
        requires
            old(self).wf(),
        ensures
            final(self).wf(),
            final(self).same_setup(old(self)),
            final(self).recoveries == old(self).recoveries,
            offset_ms == (if plan is Some && taken { plan->0.offset_ms } else { 0 }),
            ({
                let at = first_of_bins(old(self).clips@, seq![bin]);
                final(self).clips@ == (if at < old(self).clips@.len() {
                    old(self).clips@.update(at, Clip { offset_ms, ..old(self).clips@[at] })
                } else {
                    old(self).clips@
                })
            }),
    {
        let offset_ms: i64 = match plan {
            Some(p) => if taken {
                p.offset_ms
            } else {
                0
            },
            None => 0,
        };
        let mut bins: Vec<u64> = Vec::new();
        bins.push(bin);
        assert(bins@ =~= seq![bin]);
        let at: usize = self.position_of(&bins);
        if at < self.clips.len() {
            let mut clip: Clip = self.clips[at];
            clip.offset_ms = offset_ms;
            self.clips.set(at, clip);
        }
        offset_ms
    }

    fn position_of(&self, bins: &Vec<u64>) -> (at: usize)
        ensures
            at == first_of_bins(self.clips@, bins@),
            at <= self.clips@.len(),
            at < self.clips@.len() ==> bins@.contains(self.clips@[at as int].bin),
    {
        let mut at: usize = 0;
        assert(self.clips@.skip(0) =~= self.clips@);
        while at < self.clips.len()
            invariant
                at <= self.clips@.len(),
                first_of_bins(self.clips@, bins@) == at + first_of_bins(self.clips@.skip(at as int), bins@),
            decreases self.clips.len() - at,
        {
            let bin: u64 = self.clips[at].bin;
            let mut k: usize = 0;
            while k < bins.len()
                invariant
                    k <= bins@.len(),
                    at < self.clips@.len(),
                    bin == self.clips@[at as int].bin,
                    first_of_bins(self.clips@, bins@) == at + first_of_bins(
                        self.clips@.skip(at as int),
                        bins@,
                    ),
                    forall|j: int| 0 <= j < k ==> bins@[j] != bin,
                decreases bins.len() - k,
            {
                if bins[k] == bin {
                    assert(bins@[k as int] == bin);
                    return at;
                }
                k = k + 1;
            }
            assert(self.clips@.skip(at as int).drop_first() =~= self.clips@.skip(at as int + 1));
            at = at + 1;
        }
        at
    }

    /// Pipeline running time, ns: how long the pipeline has been playing by
    /// its clock. Unlike a position query it is monotonic and wall-paced.
    pub fn running_time(clock: Option<u64>, base_time: Option<u64>) -> (rt: Option<u64>)
        ensures
            rt == (match (clock, base_time) {
                (Some(now), Some(base)) => Some(if now >= base { (now - base) as u64 } else { 0 }),
                _ => None,
            }),
    {
        match (clock, base_time) {
            (Some(now), Some(base)) => Some(now.saturating_sub(base)),
            _ => None,
        }
    }

    /// Stamp the active clip with the running time it went live, so that the
    /// playhead can report the position in it.
    pub fn mark_active(&mut self, rt: Option<u64>)
        requires
            old(self).wf(),
        ensures
            final(self).wf(),
            final(self).same_setup(old(self)),
            final(self).recoveries == old(self).recoveries,
            final(self).clips@ == stamped(old(self).clips@, rt),
    {
        if self.clips.len() > 0 {
            let mut clip: Clip = self.clips[0];
            clip.start_rt = Some(rt.unwrap_or(0));
            self.clips.set(0, clip);
        }
    }

    /// Natural boundary: the clip in `bin` reached its end and playback has
    /// moved on to the prerolled one. The finished clip goes, the next is
    /// active from `rt` on, and its successor is brought up in `spawned`.
    pub fn on_clip_eos(&mut self, bin: u64, rt: Option<u64>, spawned: u64) -> (plan: Option<SpawnPlan>)
        requires
            old(self).wf(),
        ensures
            final(self).wf(),
            final(self).same_setup(old(self)),
            final(self).recoveries == 0,
            streak::step(old(self).recoveries as nat, true, old(self).files@.len() + 1) == Some(
                final(self).recoveries as nat,
            ),
            final(self).clips@ == after_end(
                old(self).clips@,
                bin,
                rt,
                spawned,
                old(self).files@.len() as int,
            ),
            plan is Some <==> without_bin(old(self).clips@, bin).len() > 0,
            plan matches Some(p) ==> p.plays(
                old(self).files@,
                old(self).passthrough,
                spawned,
                successor(
                    without_bin(old(self).clips@, bin)[0].index as int,
                    old(self).files@.len() as int,
                ),
                0,
            ),
    {
        self.recoveries = 0;
        self.retain_other(bin);
        self.mark_active(rt);
        if self.clips.len() == 0 {
            return None;
        }
        let next: usize = self.next_index(self.clips[0].index);
        Some(self.spawn(spawned, next, 0))
    }

    fn retain_other(&mut self, bin: u64)
        requires
            old(self).wf(),
        ensures
            final(self).wf(),
            final(self).same_setup(old(self)),
            final(self).recoveries == old(self).recoveries,
            final(self).clips@ == without_bin(old(self).clips@, bin),
    {
        let ghost pred = |c: Clip| c.bin != bin;
        let mut kept: Vec<Clip> = Vec::new();
        let mut i: usize = 0;
        assert(self.clips@.take(0).filter(pred) =~= Seq::empty()) by {
            reveal(Seq::filter);
        }
        while i < self.clips.len()
            invariant
                i <= self.clips@.len(),
                self.wf(),
                *self == *old(self),
                pred == (|c: Clip| c.bin != bin),
                kept@ == self.clips@.take(i as int).filter(pred),
                forall|j: int| 0 <= j < kept@.len() ==> (#[trigger] kept@[j]).index < self.files@.len(),
            decreases self.clips.len() - i,
        {
            let clip: Clip = self.clips[i];
            assert(self.clips@.take(i as int + 1).drop_last() =~= self.clips@.take(i as int));
            reveal(Seq::filter);
            if clip.bin != bin {
                kept.push(clip);
            }
            i = i + 1;
        }
        assert(self.clips@.take(self.clips@.len() as int) =~= self.clips@);
        self.clips = kept;
    }

    /// An error from `source`. When it is a clip's (a corrupt file, or one
    /// that does not fit the splice), the clip is torn down and the one after
    /// it brought up in `spawned`, so that it costs one clip and not the
    /// pipeline. Encoder, sink and pipeline errors are not a clip's to absorb,
    /// and neither is one failure more in a row than the playlist has clips.
    pub fn on_clip_error(
        &mut self,
        source: &ErrorSource,
        rt: Option<u64>,
        spawned: u64,
    ) -> (outcome: ClipError)
        requires
            old(self).wf(),
        ensures
            final(self).wf(),
            final(self).same_setup(old(self)),
            ({
                let clips = old(self).clips@;
                let at = first_of_bins(clips, source.bins@);
                let len = old(self).files@.len() as int;
                if !source.under_pipeline {
                    &&& outcome is Echo
                    &&& final(self).clips@ == clips
                    &&& final(self).recoveries == old(self).recoveries
                } else if at >= clips.len() {
                    &&& outcome is NotAClip
                    &&& final(self).clips@ == clips
                    &&& final(self).recoveries == old(self).recoveries
                } else {
                    &&& final(self).recoveries == old(self).recoveries.wrapping_add(1)
                    &&& if old(self).recoveries >= len {
                        &&& streak::step(
                            old(self).recoveries as nat,
                            false,
                            old(self).files@.len() + 1,
                        ) is None
                        &&& outcome == ClipError::GaveUp { failed: clips[at] }
                        &&& final(self).clips@ == clips.remove(at)
                    } else {
                        &&& streak::step(
                            old(self).recoveries as nat,
                            false,
                            old(self).files@.len() + 1,
                        ) == Some(final(self).recoveries as nat)
                        &&& final(self).clips@ == after_failure(clips, at, rt, spawned, len)
                        &&& outcome matches ClipError::Recovered {
                            failed,
                            was_active,
                            spawned: plan,
                        }
                        &&& failed == clips[at]
                        &&& was_active == (at == 0)
                        &&& plan.plays(
                            old(self).files@,
                            old(self).passthrough,
                            spawned,
                            replacement(clips, at, len),
                            0,
                        )
                    }
                }
            }),
    {
        if !source.under_pipeline {
            return ClipError::Echo;
        }
        let at: usize = self.position_of(&source.bins);
        if at >= self.clips.len() {
            return ClipError::NotAClip;
        }
        let was_active: bool = at == 0;
        let failed: Clip = self.clips.remove(at);
        let absorbed_before: usize = self.recoveries;
        self.recoveries = absorbed_before.wrapping_add(1);
        assert(self.wf());
        if absorbed_before >= self.files.len() {
            return ClipError::GaveUp { failed };
        }
        let base: usize = if was_active {
            self.mark_active(rt);
            if self.clips.len() > 0 {
                self.clips[0].index
            } else {
                failed.index
            }
        } else {
            failed.index
        };
        let next: usize = self.next_index(base);
        let plan: SpawnPlan = self.spawn(spawned, next, 0);
        ClipError::Recovered { failed, was_active, spawned: plan }
    }

    /// Redirect playback to `index`, seeked to `offset_ms`: it takes the
    /// prerolled clip's place, and the active clip is ended so that playback
    /// cuts straight to it.
    pub fn play_index(&mut self, bin: u64, index: usize, offset_ms: i64) -> (redirect: Redirect)
        requires
            old(self).wf(),
            old(self).clips@.len() > 0,
            index < old(self).files@.len(),
        ensures
            final(self).wf(),
            final(self).same_setup(old(self)),
            final(self).recoveries == old(self).recoveries,
            final(self).clips@ == after_redirect(old(self).clips@, bin, index as int, offset_ms),
            redirect.cuts_to(
                old(self).files@,
                old(self).passthrough,
                old(self).clips@,
                bin,
                index as int,
                offset_ms,
            ),
    {
        let dropped: Vec<Clip> = self.clips.split_off(1);
        assert(dropped@ =~= old(self).clips@.skip(1));
        assert(self.clips@ =~= old(self).clips@.take(1));
        let spawned: SpawnPlan = self.spawn(bin, index, offset_ms);
        let finish: u64 = self.clips[0].bin;
        Redirect { dropped, spawned, finish }
    }

    /// Redirect playback to a random clip.
    pub fn play_random(&mut self, bin: u64) -> (redirect: Redirect)
        requires
            old(self).wf(),
            old(self).clips@.len() > 0,
        ensures
            final(self).wf(),
            final(self).same_setup(old(self)),
            final(self).recoveries == old(self).recoveries,
            redirect.spawned.index < old(self).files@.len(),
            final(self).clips@ == after_redirect(
                old(self).clips@,
                bin,
                redirect.spawned.index as int,
                0,
            ),
            redirect.cuts_to(
                old(self).files@,
                old(self).passthrough,
                old(self).clips@,
                bin,
                redirect.spawned.index as int,
                0,
            ),
    {
        let index: usize = self.random_index();
        self.play_index(bin, index, 0)
    }

    /// Redirect playback to the clip named `name`; nothing happens when the
    /// playlist has none.
    pub fn play_file(&mut self, bin: u64, name: &str) -> (redirect: Option<Redirect>)
        requires
            old(self).wf(),
            old(self).clips@.len() > 0 || not_found(old(self).files@, name@),
        ensures
            final(self).wf(),
            old(self).redirects_to_name(final(self), redirect, bin, name@, 0),
    {
        self.play_at(bin, name, 0)
    }

    /// What redirecting to a clip by name comes to.
    pub open spec fn redirects_to_name(
        &self,
        after: &Player,
        redirect: Option<Redirect>,
        bin: u64,
        name: Seq<char>,
        offset_ms: i64,
    ) -> bool {
        &&& after.same_setup(self)
        &&& after.recoveries == self.recoveries
        &&& match redirect {
            Some(r) => {
                &&& found_at(self.files@, name, r.spawned.index as int)
                &&& after.clips@ == after_redirect(
                    self.clips@,
                    bin,
                    r.spawned.index as int,
                    offset_ms,
                )
                &&& r.cuts_to(
                    self.files@,
                    self.passthrough,
                    self.clips@,
                    bin,
                    r.spawned.index as int,
                    offset_ms,
                )
            },
            None => not_found(self.files@, name) && after.clips@ == self.clips@,
        }
    }

    /// Redirect playback to the clip named `name`, seeked to `position_ms`;
    /// nothing happens when the playlist has none.
    pub fn play_at(&mut self, bin: u64, name: &str, position_ms: i64) -> (redirect: Option<Redirect>)
        requires
            old(self).wf(),
            old(self).clips@.len() > 0 || not_found(old(self).files@, name@),
        ensures
            final(self).wf(),
            old(self).redirects_to_name(final(self), redirect, bin, name@, position_ms),
    {
        match self.find(name) {
            Some(index) => Some(self.play_index(bin, index, position_ms)),
            None => None,
        }
    }

    /// Redirect playback `n` clips forward; `n < 1` is treated as 1.
    pub fn skip(&mut self, bin: u64, n: i32) -> (redirect: Redirect)
        requires
            old(self).wf(),
            old(self).clips@.len() > 0,
        ensures
            final(self).wf(),
            final(self).same_setup(old(self)),
            final(self).recoveries == old(self).recoveries,
            ({
                let index = (old(self).clips@[0].index + at_least_one(n as int)) % (
                old(self).files@.len() as int);
                &&& final(self).clips@ == after_redirect(old(self).clips@, bin, index, 0)
                &&& redirect.cuts_to(
                    old(self).files@,
                    old(self).passthrough,
                    old(self).clips@,
                    bin,
                    index,
                    0,
                )
            }),
    {
        let index: usize = skip_index(self.active_index(), n, self.files.len());
        self.play_index(bin, index, 0)
    }

    /// Redirect playback `n` clips back; `n < 1` is treated as 1.
    pub fn back(&mut self, bin: u64, n: i32) -> (redirect: Redirect)
        requires
            old(self).wf(),
            old(self).clips@.len() > 0,
        ensures
            final(self).wf(),
            final(self).same_setup(old(self)),
            final(self).recoveries == old(self).recoveries,
            ({
                let index = (old(self).clips@[0].index - at_least_one(n as int)) % (
                old(self).files@.len() as int);
                &&& final(self).clips@ == after_redirect(old(self).clips@, bin, index, 0)
                &&& redirect.cuts_to(
                    old(self).files@,
                    old(self).passthrough,
                    old(self).clips@,
                    bin,
                    index,
                    0,
                )
            }),
    {
        let index: usize = back_index(self.active_index(), n, self.files.len());
        self.play_index(bin, index, 0)
    }

    /// The bin to end so that playback cuts to the prerolled clip now; `None`
    /// when nothing is live.
    pub fn jump(&self) -> (bin: Option<u64>)
        ensures
            bin == (if self.clips@.len() > 0 { Some(self.clips@[0].bin) } else { None }),
    {
        if self.clips.len() > 0 {
            Some(self.clips[0].bin)
        } else {
            None
        }
    }

    /// File name of the active clip; `None` when nothing is live.
    pub fn current_basename(&self) -> (name: Option<String>)
        requires
            self.wf(),
        ensures
            name is Some <==> self.clips@.len() > 0,
            name matches Some(n) ==> n@ == basename(self.files@[self.clips@[0].index as int]),
    {
        if self.clips.len() == 0 {
            return None;
        }
        Some(self.basename_at(self.clips[0].index))
    }

    /// File name of the active clip and the playback position in it, ms, at
    /// running time `now`. The position is derived from the clock, so it can
    /// neither freeze nor race ahead.
    pub fn playhead(&self, now: Option<u64>) -> (head: Option<(String, i64)>)
        requires
            self.wf(),
        ensures
            head is Some <==> self.clips@.len() > 0,
            head matches Some((name, position_ms)) ==> {
                &&& name@ == basename(self.files@[self.clips@[0].index as int])
                &&& position_ms == position(self.clips@[0], now)
            },
    {
        if self.clips.len() == 0 {
            return None;
        }
        let active: Clip = self.clips[0];
        let name: String = self.basename_at(active.index);
        let position_ms: i64 = match (now, active.start_rt) {
            (Some(n), Some(s)) => {
                let n: i64 = (n / 1_000_000) as i64;
                let s: i64 = (s / 1_000_000) as i64;
                let gone: i64 = if n - s < 0 { 0 } else { n - s };
                active.offset_ms.wrapping_add(gone)
            },
            _ => active.offset_ms,
        };
        Some((name, position_ms))
    }

    /// Where a playhead move at running time `now` starts from.
    pub fn seek_origin(&self, now: Option<u64>) -> (origin: SeekOrigin)
        requires
            self.wf(),
        ensures
            origin.wf(),
            origin.len == self.files@.len(),
            self.clips@.len() > 0 ==> origin.active == self.clips@[0].index && origin.pos_ms
                == position(self.clips@[0], now),
            self.clips@.len() == 0 ==> origin.active == 0 && origin.pos_ms == 0,
    {
        let pos_ms: i64 = match self.playhead(now) {
            Some((_, p)) => p,
            None => 0,
        };
        SeekOrigin { active: self.active_index(), pos_ms, len: self.files.len() }
    }
}

impl SeekOrigin {
    pub open spec fn wf(&self) -> bool {
        self.active < self.len
    }

    /// Where a move by `delta_ms` lands, as (index, offset_ms). `duration_ms`
    /// answers per-clip durations.
    pub fn seek_target<F: Fn(usize) -> Option<i64>>(
        &self,
        delta_ms: i64,
        duration_ms: F,
    ) -> (place: (usize, i64))
        requires
            self.wf(),
            forall|i: usize| i < self.len ==> call_requires(duration_ms, (i,)),
        ensures
            place.0 < self.len,
            place.1 >= 0,
            forall|durations: Seq<Option<i64>>|
                #[trigger] answers(duration_ms, durations, self.len) ==> (
                place.0 as int,
                place.1 as int,
            ) == moved(durations, self.active as int, self.pos_ms as int, delta_ms as int),
    {
        seek_walk(self.active, self.pos_ms, delta_ms, self.len, duration_ms)
    }
}

impl Durations {
    /// Nothing found yet.
    pub fn new() -> (durations: Durations)
        ensures
            durations.known@ == Map::<usize, i64>::empty(),
    {
        Durations { known: HashMap::new() }
    }

    /// The clip's duration, ms, when it has been found.
    pub fn cached(&self, index: usize) -> (duration_ms: Option<i64>)
        ensures
            duration_ms == (if self.known@.dom().contains(index) {
                Some(self.known@[index])
            } else {
                None
            }),
    {
        match self.known.get(&index) {
            Some(d) => Some(*d),
            None => None,
        }
    }

    /// Take in what looking a clip's duration up came to, in ns, and give the
    /// clip's duration in ms. One that could not be found is not kept, so it
    /// is looked for again.
    pub fn learn(&mut self, index: usize, found: Option<u64>) -> (duration_ms: Option<i64>)
        ensures
            duration_ms == (match found {
                Some(ns) => Some((ns / 1_000_000) as i64),
                None => None,
            }),
            final(self).known@ == (match found {
                Some(ns) => old(self).known@.insert(index, (ns / 1_000_000) as i64),
                None => old(self).known@,
            }),
    {
        match found {
            Some(ns) => {
                let d: i64 = (ns / 1_000_000) as i64;
                self.known.insert(index, d);
                Some(d)
            },
            None => None,
        }
    }
}

impl HeldPad {
    /// A held pad that nothing has reached.
    pub fn new() -> (pad: HeldPad)
        ensures
            !pad.scheduled,
    {
        HeldPad { scheduled: false }
    }

    /// What to do with what reaches the pad: no event may pass before the
    /// seek, and buffers are held until it. The first buffer shows that the
    /// clip is up, so it asks for the seek, once.
    pub fn on_item(&mut self, item: PadItem) -> (verdict: HoldVerdict)
        ensures
            verdict == (if item != PadItem::Buffer {
                HoldVerdict::Drop
            } else if old(self).scheduled {
                HoldVerdict::Hold
            } else {
                HoldVerdict::HoldAndSeek
            }),
            final(self).scheduled == (old(self).scheduled || item == PadItem::Buffer),
    {
        if item != PadItem::Buffer {
            return HoldVerdict::Drop;
        }
        if self.scheduled {
            HoldVerdict::Hold
        } else {
            self.scheduled = true;
            HoldVerdict::HoldAndSeek
        }
    }
}

/// What to do with what reaches the pad a clip feeds the splice through. A
/// clip's end must never pass: the stream has no end.
pub fn splice_verdict(item: PadItem) -> (verdict: SpliceVerdict)
    ensures
        verdict == (if item == PadItem::EndOfStream {
            SpliceVerdict::DropAndFinish
        } else {
            SpliceVerdict::Pass
        }),
{
    if item == PadItem::EndOfStream {
        SpliceVerdict::DropAndFinish
    } else {
        SpliceVerdict::Pass
    }
}

/// No two live clips share a bin.
pub open spec fn distinct_bins(clips: Seq<Clip>) -> bool {
    forall|i: int, j: int|
        0 <= i < j < clips.len() ==> (#[trigger] clips[i]).bin != (#[trigger] clips[j]).bin
}

/// `bin` is not the bin of a live clip.
pub open spec fn new_bin(clips: Seq<Clip>, bin: u64) -> bool {
    forall|i: int| 0 <= i < clips.len() ==> (#[trigger] clips[i]).bin != bin
}

proof fn lemma_without_first(clips: Seq<Clip>)
    requires
        clips.len() == 2,
        distinct_bins(clips),
    ensures
        without_bin(clips, clips[0].bin) == seq![clips[1]],
{
    reveal(Seq::filter);
    let pred = |c: Clip| c.bin != clips[0].bin;
    assert(clips[0].bin != clips[1].bin);
    assert(clips.drop_last() =~= seq![clips[0]]);
    assert(clips.drop_last().drop_last() =~= Seq::empty());
    assert(clips.drop_last().drop_last().filter(pred) =~= Seq::empty());
    assert(clips.drop_last().filter(pred) =~= Seq::empty());
    assert(clips.filter(pred) =~= seq![clips[1]]);
}

/// A natural boundary: with an active and a prerolled clip live, the prerolled
/// one becomes active from the running time of the boundary on, and its
/// successor is prerolled. There are an active and a prerolled clip again.
pub proof fn law_boundary_promotes_the_prerolled_clip(
    clips: Seq<Clip>,
    rt: Option<u64>,
    spawned: u64,
    len: int,
)
    requires
        clips.len() == 2,
        distinct_bins(clips),
        new_bin(clips, spawned),
        0 < len <= usize::MAX,
    ensures
        after_end(clips, clips[0].bin, rt, spawned, len) == seq![
            Clip { start_rt: Some(if rt is Some { rt->0 } else { 0 }), ..clips[1] },
            fresh(spawned, successor(clips[1].index as int, len), 0),
        ],
        distinct_bins(after_end(clips, clips[0].bin, rt, spawned, len)),
{
    lemma_without_first(clips);
    assert(after_end(clips, clips[0].bin, rt, spawned, len) =~= seq![
        Clip { start_rt: Some(if rt is Some { rt->0 } else { 0 }), ..clips[1] },
        fresh(spawned, successor(clips[1].index as int, len), 0),
    ]);
}

/// Redirecting playback plays what was asked for: once the active clip has
/// ended, the clip redirected to is active, at the offset asked for, and its
/// successor is prerolled.
pub proof fn law_redirect_plays_the_target(
    clips: Seq<Clip>,
    bin: u64,
    index: int,
    offset_ms: i64,
    rt: Option<u64>,
    spawned: u64,
    len: int,
)
    requires
        clips.len() > 0,
        0 <= index < len <= usize::MAX,
        bin != clips[0].bin,
        new_bin(after_redirect(clips, bin, index, offset_ms), spawned),
    ensures
        after_end(
            after_redirect(clips, bin, index, offset_ms),
            clips[0].bin,
            rt,
            spawned,
            len,
        ) == seq![
            Clip {
                bin,
                index: index as usize,
                offset_ms,
                start_rt: Some(if rt is Some { rt->0 } else { 0 }),
            },
            fresh(spawned, successor(index, len), 0),
        ],
{
    let cut = after_redirect(clips, bin, index, offset_ms);
    assert(distinct_bins(cut));
    law_boundary_promotes_the_prerolled_clip(cut, rt, spawned, len);
}

/// A failed clip costs that clip and nothing else. When the active one fails,
/// the prerolled one becomes active and its successor is prerolled; when the
/// prerolled one fails, the active one plays on and the clip after the failed
/// one is prerolled, not the failed one again. Either way there are an active
/// and a prerolled clip again.
pub proof fn law_failure_costs_one_clip(
    clips: Seq<Clip>,
    at: int,
    rt: Option<u64>,
    spawned: u64,
    len: int,
)
    requires
        clips.len() == 2,
        0 <= at < 2,
        distinct_bins(clips),
        new_bin(clips, spawned),
        0 < len <= usize::MAX,
    ensures
        ({
            let rest = after_failure(clips, at, rt, spawned, len);
            &&& rest.len() == 2
            &&& distinct_bins(rest)
            &&& at == 0 ==> rest == seq![
                Clip { start_rt: Some(if rt is Some { rt->0 } else { 0 }), ..clips[1] },
                fresh(spawned, successor(clips[1].index as int, len), 0),
            ]
            &&& at == 1 ==> rest == seq![
                clips[0],
                fresh(spawned, successor(clips[1].index as int, len), 0),
            ]
        }),
{
    let rest = after_failure(clips, at, rt, spawned, len);
    if at == 0 {
        assert(rest =~= seq![
            Clip { start_rt: Some(if rt is Some { rt->0 } else { 0 }), ..clips[1] },
            fresh(spawned, successor(clips[1].index as int, len), 0),
        ]);
    } else {
        assert(rest =~= seq![
            clips[0],
            fresh(spawned, successor(clips[1].index as int, len), 0),
        ]);
    }
}

/// What happens to the live clips.
pub enum LiveEvent {
    /// The active clip ended at this running time; the clip to bring up is for
    /// bin `spawned`.
    Ended { rt: Option<u64>, spawned: u64 },
    /// The clip at place `at` failed at this running time; the clip to bring up
    /// is for bin `spawned`.
    Failed { at: int, rt: Option<u64>, spawned: u64 },
    /// Playback was redirected to `index`, seeked to `offset_ms`, in `bin`.
    Redirected { bin: u64, index: int, offset_ms: i64 },
}

/// The live clips after `event`.
pub open spec fn after_event(clips: Seq<Clip>, event: LiveEvent, len: int) -> Seq<Clip> {
    match event {
        LiveEvent::Ended { rt, spawned } => after_end(clips, clips[0].bin, rt, spawned, len),
        LiveEvent::Failed { at, rt, spawned } => after_failure(clips, at, rt, spawned, len),
        LiveEvent::Redirected { bin, index, offset_ms } => after_redirect(
            clips,
            bin,
            index,
            offset_ms,
        ),
    }
}

/// `event` can happen to `clips`: the clip it brings up gets a bin of its own,
/// and it speaks of a live clip and of an entry of the playlist.
pub open spec fn can_happen(clips: Seq<Clip>, event: LiveEvent, len: int) -> bool {
    match event {
        LiveEvent::Ended { rt, spawned } => new_bin(clips, spawned),
        LiveEvent::Failed { at, rt, spawned } => new_bin(clips, spawned) && 0 <= at < clips.len(),
        LiveEvent::Redirected { bin, index, offset_ms } => new_bin(clips, bin) && 0 <= index < len,
    }
}

/// The live clips after `events`.
pub open spec fn after_events(clips: Seq<Clip>, events: Seq<LiveEvent>, len: int) -> Seq<Clip>
    decreases events.len(),
{
    if events.len() == 0 {
        clips
    } else {
        after_events(after_event(clips, events[0], len), events.drop_first(), len)
    }
}

/// `events` can happen to `clips`, one after the other.
pub open spec fn all_can_happen(clips: Seq<Clip>, events: Seq<LiveEvent>, len: int) -> bool
    decreases events.len(),
{
    events.len() == 0 || (can_happen(clips, events[0], len) && all_can_happen(
        after_event(clips, events[0], len),
        events.drop_first(),
        len,
    ))
}

/// An active and a prerolled clip, each of the playlist and in a bin of its
/// own.
pub open spec fn pair_is_live(clips: Seq<Clip>, len: int) -> bool {
    &&& clips.len() == 2
    &&& distinct_bins(clips)
    &&& clips[0].index < len
    &&& clips[1].index < len
}

/// The stream never runs dry: once an active and a prerolled clip are live,
/// whatever comes, be it the end of the active clip, the failure of either or
/// a redirect, in any order, leaves an active and a prerolled clip live. (Short
/// of the failure that gives up.)
pub proof fn law_an_active_and_a_prerolled_clip_stay_live(
    clips: Seq<Clip>,
    events: Seq<LiveEvent>,
    len: int,
)
    requires
        0 < len <= usize::MAX,
        pair_is_live(clips, len),
        all_can_happen(clips, events, len),
    ensures
        pair_is_live(after_events(clips, events, len), len),
    decreases events.len(),
{
    if events.len() > 0 {
        vstd::arithmetic::div_mod::lemma_mod_bound(clips[1].index + 1, len);
        match events[0] {
            LiveEvent::Ended { rt, spawned } => {
                law_boundary_promotes_the_prerolled_clip(clips, rt, spawned, len);
            },
            LiveEvent::Failed { at, rt, spawned } => {
                law_failure_costs_one_clip(clips, at, rt, spawned, len);
            },
            LiveEvent::Redirected { bin, index, offset_ms } => {},
        }
        law_an_active_and_a_prerolled_clip_stay_live(
            after_event(clips, events[0], len),
            events.drop_first(),
            len,
        );
    }
}

/// The live clips after `n` natural boundaries; the clip brought up at
/// boundary `k` is in bin `bins(k)`, and the boundary comes at `rts(k)`.
pub open spec fn after_boundaries(
    clips: Seq<Clip>,
    n: nat,
    rts: spec_fn(nat) -> Option<u64>,
    bins: spec_fn(nat) -> u64,
    len: int,
) -> Seq<Clip>
    decreases n,
{
    if n == 0 {
        clips
    } else {
        let so_far = after_boundaries(clips, (n - 1) as nat, rts, bins, len);
        after_end(so_far, so_far[0].bin, rts((n - 1) as nat), bins((n - 1) as nat), len)
    }
}

/// The clips brought up at the first `n` boundaries get bins of their own.
pub open spec fn own_bins(clips: Seq<Clip>, n: nat, bins: spec_fn(nat) -> u64) -> bool {
    &&& forall|k: nat| k < n ==> new_bin(clips, #[trigger] bins(k))
    &&& forall|j: nat, k: nat| j < k < n ==> #[trigger] bins(j) != #[trigger] bins(k)
}

/// Boundaries advance through the playlist and wrap: from an active clip with
/// its successor prerolled, `n` boundaries on the clip `n` entries further is
/// active, and its successor prerolled.
pub proof fn law_boundaries_advance_and_wrap(
    clips: Seq<Clip>,
    n: nat,
    rts: spec_fn(nat) -> Option<u64>,
    bins: spec_fn(nat) -> u64,
    len: int,
)
    requires
        clips.len() == 2,
        distinct_bins(clips),
        0 < len <= usize::MAX,
        clips[0].index < len,
        clips[1].index == successor(clips[0].index as int, len),
        own_bins(clips, n, bins),
    ensures
        ({
            let now = after_boundaries(clips, n, rts, bins, len);
            &&& now.len() == 2
            &&& now[0].index == (clips[0].index + n) % len
            &&& now[1].index == successor(now[0].index as int, len)
        }),
{
    lemma_boundaries(clips, n, n, rts, bins, len);
}

/// Every clip of the playlist plays: from an active clip with its successor
/// prerolled, it is active within as many boundaries as the playlist has
/// clips.
pub proof fn law_every_clip_plays(
    clips: Seq<Clip>,
    index: int,
    rts: spec_fn(nat) -> Option<u64>,
    bins: spec_fn(nat) -> u64,
    len: int,
)
    requires
        clips.len() == 2,
        distinct_bins(clips),
        0 <= index < len <= usize::MAX,
        clips[0].index < len,
        clips[1].index == successor(clips[0].index as int, len),
        own_bins(clips, len as nat, bins),
    ensures
        exists|n: nat|
            n < len && (#[trigger] after_boundaries(clips, n, rts, bins, len))[0].index == index,
{
    let first = clips[0].index as int;
    let n = ((index - first) % len) as nat;
    vstd::arithmetic::div_mod::lemma_mod_bound(index - first, len);
    lemma_boundaries(clips, n, len as nat, rts, bins, len);
    vstd::arithmetic::div_mod::lemma_add_mod_noop_right(first, index - first, len);
    vstd::arithmetic::div_mod::lemma_small_mod(index as nat, len as nat);
    assert(after_boundaries(clips, n, rts, bins, len)[0].index == index);
}

proof fn lemma_boundaries(
    clips: Seq<Clip>,
    n: nat,
    all: nat,
    rts: spec_fn(nat) -> Option<u64>,
    bins: spec_fn(nat) -> u64,
    len: int,
)
    requires
        clips.len() == 2,
        distinct_bins(clips),
        0 < len <= usize::MAX,
        clips[0].index < len,
        clips[1].index == successor(clips[0].index as int, len),
        n <= all,
        own_bins(clips, all, bins),
    ensures
        ({
            let now = after_boundaries(clips, n, rts, bins, len);
            &&& now.len() == 2
            &&& distinct_bins(now)
            &&& now[0].index == (clips[0].index + n) % len
            &&& now[1].index == successor(now[0].index as int, len)
            &&& forall|k: nat| n <= k < all ==> new_bin(now, #[trigger] bins(k))
        }),
    decreases n,
{
    if n == 0 {
        vstd::arithmetic::div_mod::lemma_small_mod(clips[0].index as nat, len as nat);
    } else {
        let m = (n - 1) as nat;
        lemma_boundaries(clips, m, all, rts, bins, len);
        let so_far = after_boundaries(clips, m, rts, bins, len);
        law_boundary_promotes_the_prerolled_clip(so_far, rts(m), bins(m), len);
        let i = clips[0].index as int;
        vstd::arithmetic::div_mod::lemma_add_mod_noop(i + m, 1, len);
        vstd::arithmetic::div_mod::lemma_add_mod_noop((i + m) % len, 1, len);
        vstd::arithmetic::div_mod::lemma_mod_twice(i + m, len);
        vstd::arithmetic::div_mod::lemma_mod_bound(so_far[1].index + 1, len);
    }
}

/// Recovery is bounded: of a run of clip ends (`true`) and clip failures, the
/// failure that gives up is reached exactly when one more failure than the
/// playlist has clips comes without a clip reaching its end in between. An
/// entirely bad corpus gives up instead of spinning; failures between which
/// clips play through never do.
pub proof fn law_recovery_is_bounded(outcomes: Seq<bool>, len: nat)
    ensures
        streak::tally(outcomes, len + 1) is None <==> exists|from: int|
            #[trigger] streak::fails_throughout(outcomes, from, len + 1),
{
    streak::law_only_a_full_run_reaches_the_threshold(outcomes, len + 1);
}

/// A clip that plays undisturbed has a playhead that advances with the clock:
/// between two running times after it became active, its position grows by the
/// milliseconds that passed. (As long as the position is in range.)
pub proof fn law_playhead_advances_with_the_clock(clip: Clip, earlier: u64, later: u64)
    requires
        clip.start_rt is Some,
        clip.start_rt->0 <= earlier <= later,
        clip.offset_ms + later / 1_000_000 - clip.start_rt->0 / 1_000_000 <= i64::MAX,
    ensures
        position(clip, Some(later)) - position(clip, Some(earlier)) == later / 1_000_000 - earlier
            / 1_000_000,
{
}

/// A clip is brought up as it was asked for: this entry, in this bin, from this
/// offset, and not active yet.
pub proof fn law_a_clip_is_brought_up_as_asked(bin: u64, index: int, offset_ms: i64)
    requires
        0 <= index <= usize::MAX,
    ensures
        fresh(bin, index, offset_ms).bin == bin,
        fresh(bin, index, offset_ms).index == index,
        fresh(bin, index, offset_ms).offset_ms == offset_ms,
        fresh(bin, index, offset_ms).start_rt is None,
{
}

/// Every entry is followed by the one after it, and the last by the first.
pub proof fn law_the_playlist_loops(index: int, len: int)
    requires
        0 <= index < len,
    ensures
        index + 1 < len ==> successor(index, len) == index + 1,
        index + 1 == len ==> successor(index, len) == 0,
{
    if index + 1 < len {
        vstd::arithmetic::div_mod::lemma_small_mod((index + 1) as nat, len as nat);
    } else {
        vstd::arithmetic::div_mod::lemma_mod_self_0(len);
    }
}

/// Marking the active clip gives it its start, the running time or none at all,
/// and changes nothing else of it and no other clip.
pub proof fn law_only_the_active_clips_start_is_marked(clips: Seq<Clip>, rt: Option<u64>)
    ensures
        stamped(clips, rt).len() == clips.len(),
        forall|i: int| 0 < i < clips.len() ==> stamped(clips, rt)[i] == clips[i],
        clips.len() > 0 ==> {
            let active = stamped(clips, rt)[0];
            &&& active.bin == clips[0].bin
            &&& active.index == clips[0].index
            &&& active.offset_ms == clips[0].offset_ms
            &&& rt is Some ==> active.start_rt == rt
            &&& rt is None ==> active.start_rt == Some(0u64)
        },
{
}

/// The clips that are left without a bin are those of the other bins, in their
/// order.
pub proof fn law_only_the_clips_of_the_bin_go(
    first: Seq<Clip>,
    second: Seq<Clip>,
    clip: Clip,
    bin: u64,
)
    ensures
        without_bin(first + second, bin) == without_bin(first, bin) + without_bin(second, bin),
        without_bin(Seq::empty(), bin) == Seq::<Clip>::empty(),
        clip.bin == bin ==> without_bin(seq![clip], bin) == Seq::<Clip>::empty(),
        clip.bin != bin ==> without_bin(seq![clip], bin) == seq![clip],
{
    let pred = |c: Clip| c.bin != bin;
    Seq::filter_distributes_over_add(first, second, pred);
    reveal(Seq::filter);
    assert(Seq::<Clip>::empty().filter(pred) =~= Seq::empty());
    assert(seq![clip].drop_last() =~= Seq::empty());
    assert(clip.bin == bin ==> seq![clip].filter(pred) =~= Seq::empty());
    assert(clip.bin != bin ==> seq![clip].filter(pred) =~= seq![clip]);
}

/// At a boundary the clips of the bin that ended go. The first that is left is
/// active from the boundary on, those behind it stay, and behind them all comes
/// the entry after the active one, from its top. Nothing comes when none is
/// left.
pub proof fn law_a_boundary_brings_up_the_next_entry(
    clips: Seq<Clip>,
    bin: u64,
    rt: Option<u64>,
    spawned: u64,
    len: int,
)
    requires
        0 < len <= usize::MAX,
    ensures
        ({
            let rest = without_bin(clips, bin);
            let now = after_end(clips, bin, rt, spawned, len);
            &&& rest.len() == 0 ==> now.len() == 0
            &&& rest.len() > 0 ==> {
                &&& now.len() == rest.len() + 1
                &&& now[0].bin == rest[0].bin
                &&& now[0].index == rest[0].index
                &&& now[0].offset_ms == rest[0].offset_ms
                &&& now[0].start_rt == Some(if rt is Some { rt->0 } else { 0 })
                &&& forall|i: int| 0 < i < rest.len() ==> now[i] == rest[i]
                &&& now.last().bin == spawned
                &&& now.last().index == (rest[0].index + 1) % len
                &&& now.last().offset_ms == 0
                &&& now.last().start_rt is None
            }
        }),
{
    let rest = without_bin(clips, bin);
    if rest.len() > 0 {
        vstd::arithmetic::div_mod::lemma_mod_bound(rest[0].index + 1, len);
    }
}

/// A redirect leaves the active clip as it is, and behind it nothing but the
/// clip asked for.
pub proof fn law_a_redirect_leaves_the_active_clip_and_the_target(
    clips: Seq<Clip>,
    bin: u64,
    index: int,
    offset_ms: i64,
)
    requires
        clips.len() > 0,
        0 <= index <= usize::MAX,
    ensures
        ({
            let now = after_redirect(clips, bin, index, offset_ms);
            &&& now.len() == 2
            &&& now[0] == clips[0]
            &&& now[1].bin == bin
            &&& now[1].index == index
            &&& now[1].offset_ms == offset_ms
            &&& now[1].start_rt is None
        }),
{
}

/// The clip found for some bins is the first live one that is in any of them,
/// whatever their number and order: none before it is, and only where no live
/// clip is does the search run to the end.
pub proof fn law_the_first_clip_of_the_bins_is_found(clips: Seq<Clip>, bins: Seq<u64>)
    ensures
        0 <= first_of_bins(clips, bins) <= clips.len(),
        first_of_bins(clips, bins) < clips.len() ==> bins.contains(
            clips[first_of_bins(clips, bins)].bin,
        ),
        forall|i: int|
            0 <= i < first_of_bins(clips, bins) ==> !bins.contains((#[trigger] clips[i]).bin),
        forall|i: int|
            0 <= i < clips.len() && bins.contains((#[trigger] clips[i]).bin) ==> first_of_bins(
                clips,
                bins,
            ) <= i,
    decreases clips.len(),
{
    if clips.len() > 0 && !bins.contains(clips[0].bin) {
        let rest = clips.drop_first();
        law_the_first_clip_of_the_bins_is_found(rest, bins);
        let at = first_of_bins(clips, bins);
        assert forall|i: int| 0 <= i < at implies !bins.contains((#[trigger] clips[i]).bin) by {
            if i > 0 {
                assert(clips[i] == rest[i - 1]);
            }
        }
        assert forall|i: int|
            0 <= i < clips.len() && bins.contains((#[trigger] clips[i]).bin) implies at <= i by {
            if i > 0 {
                assert(clips[i] == rest[i - 1]);
            }
        }
    }
}

/// A failure takes out the clip that failed and brings up another, wherever it
/// stood and however many are live. The clips that are left stay in their
/// order; the first of them is active from the failure on when the active one
/// failed, and is as it was otherwise. The clip brought up is the entry after
/// the one that is promoted, or after the one that failed when none is.
pub proof fn law_a_failure_replaces_the_failed_clip(
    clips: Seq<Clip>,
    at: int,
    rt: Option<u64>,
    spawned: u64,
    len: int,
)
    requires
        0 <= at < clips.len(),
        0 < len <= usize::MAX,
    ensures
        ({
            let now = after_failure(clips, at, rt, spawned, len);
            let base = if at == 0 && clips.len() > 1 { clips[1].index } else { clips[at].index };
            &&& now.len() == clips.len()
            &&& forall|i: int| 0 < i < at ==> now[i] == clips[i]
            &&& forall|i: int| 0 < i < clips.len() - 1 && at <= i ==> now[i] == clips[i + 1]
            &&& at > 0 ==> now[0] == clips[0]
            &&& at == 0 && clips.len() > 1 ==> {
                &&& now[0].bin == clips[1].bin
                &&& now[0].index == clips[1].index
                &&& now[0].offset_ms == clips[1].offset_ms
                &&& now[0].start_rt == Some(if rt is Some { rt->0 } else { 0 })
            }
            &&& replacement(clips, at, len) == (base + 1) % len
            &&& now.last().bin == spawned
            &&& now.last().index == (base + 1) % len
            &&& now.last().offset_ms == 0
            &&& now.last().start_rt is None
        }),
{
    let base = if at == 0 && clips.len() > 1 { clips[1].index } else { clips[at].index };
    vstd::arithmetic::div_mod::lemma_mod_bound(base + 1, len);
}

/// The position in a clip begins at the offset it started at, and stays there
/// until it is active, while no running time is known, and while the clock has
/// not passed its start.
pub proof fn law_a_clip_starts_at_its_offset(clip: Clip, now: u64)
    ensures
        position(clip, clip.start_rt) == clip.offset_ms,
        position(clip, None) == clip.offset_ms,
        clip.start_rt is None ==> position(clip, Some(now)) == clip.offset_ms,
        clip.start_rt is Some && now <= clip.start_rt->0 ==> position(clip, Some(now))
            == clip.offset_ms,
{
}

/// The position in an active clip is the offset it started at and the whole
/// milliseconds of running time since, for every offset and every time at
/// which their sum is in range.
pub proof fn law_the_position_is_the_offset_and_the_time_since(clip: Clip, now: u64)
    requires
        clip.start_rt is Some,
        clip.start_rt->0 <= now,
        clip.offset_ms + now / 1_000_000 - clip.start_rt->0 / 1_000_000 <= i64::MAX,
    ensures
        position(clip, Some(now)) == clip.offset_ms + now / 1_000_000 - clip.start_rt->0
            / 1_000_000,
{
}

/// Past the range of positions the position wraps round to its other end.
pub proof fn law_the_position_wraps_past_its_range(clip: Clip, now: u64)
    requires
        clip.start_rt is Some,
        clip.start_rt->0 <= now,
        clip.offset_ms + now / 1_000_000 - clip.start_rt->0 / 1_000_000 > i64::MAX,
    ensures
        position(clip, Some(now)) == clip.offset_ms + now / 1_000_000 - clip.start_rt->0
            / 1_000_000 - 0x1_0000_0000_0000_0000,
{
}

/// A clip goes by its file name, and by an empty one when that is not valid
/// Unicode; only a file that has the name is the one of that name.
pub proof fn law_a_clip_goes_by_its_file_name(file: ClipFile, name: Seq<char>)
    ensures
        file.name is Some ==> basename(file) == file.name->0@,
        file.name is None ==> basename(file).len() == 0,
        is_named(file, name) <==> file.name is Some && file.name->0@ == name,
{
}

/// A name is found at the first file that has it, and is not found exactly when
/// no file has it.
pub proof fn law_a_name_is_found_where_it_stands_first(
    files: Seq<ClipFile>,
    name: Seq<char>,
    index: int,
)
    requires
        0 <= index < files.len(),
    ensures
        found_at(files, name, index) <==> {
            &&& files[index].name is Some
            &&& files[index].name->0@ == name
            &&& forall|j: int|
                0 <= j < index ==> ((#[trigger] files[j]).name is None || files[j].name->0@ != name)
        },
        files[index].name is Some && files[index].name->0@ == name ==> !not_found(files, name),
        (forall|j: int|
            0 <= j < files.len() ==> ((#[trigger] files[j]).name is None || files[j].name->0@
                != name)) ==> not_found(files, name),
{
    if files[index].name is Some && files[index].name->0@ == name {
        assert(is_named(files[index], name));
    }
    if found_at(files, name, index) {
        assert forall|j: int| 0 <= j < index implies ((#[trigger] files[j]).name is None
            || files[j].name->0@ != name) by {
            assert(!is_named(files[j], name));
        }
    }
}

/// A name that is not found is no file's.
pub proof fn law_a_name_not_found_is_no_files(files: Seq<ClipFile>, name: Seq<char>, index: int)
    requires
        not_found(files, name),
        0 <= index < files.len(),
    ensures
        files[index].name is None || files[index].name->0@ != name,
{
    assert(!is_named(files[index], name));
}

/// A plan that plays an entry names its bin, entry, file and offset, stops short
/// of a decoder exactly when the player passes through, and holds the clip for
/// a seek exactly when there is one to make.
pub proof fn law_a_plan_says_all_there_is_to_bring_up(
    plan: SpawnPlan,
    files: Seq<ClipFile>,
    passthrough: bool,
    bin: u64,
    index: int,
    offset_ms: i64,
)
    ensures
        plan.plays(files, passthrough, bin, index, offset_ms) <==> {
            &&& plan.bin == bin
            &&& plan.index == index
            &&& plan.uri@ == "file://"@ + files[index].path@
            &&& plan.offset_ms == offset_ms
            &&& plan.compressed == passthrough
            &&& plan.hold_for_seek == (offset_ms > 0)
        },
{
}

/// A redirect drops every clip behind the active one, brings the target up and
/// ends the active one.
pub proof fn law_a_redirect_says_all_there_is_to_do(
    redirect: Redirect,
    files: Seq<ClipFile>,
    passthrough: bool,
    clips: Seq<Clip>,
    bin: u64,
    index: int,
    offset_ms: i64,
)
    requires
        redirect.cuts_to(files, passthrough, clips, bin, index, offset_ms),
        clips.len() > 0,
    ensures
        redirect.dropped@.len() == clips.len() - 1,
        forall|i: int| 0 < i < clips.len() ==> redirect.dropped@[i - 1] == #[trigger] clips[i],
        redirect.finish == clips[0].bin,
        redirect.spawned.bin == bin,
        redirect.spawned.index == index,
        redirect.spawned.offset_ms == offset_ms,
        redirect.spawned.uri@ == "file://"@ + files[index].path@,
        redirect.spawned.compressed == passthrough,
        redirect.spawned.hold_for_seek == (offset_ms > 0),
{
}

/// Redirecting by name goes to the first file of that name, at the offset asked
/// for, or nowhere when there is none, and changes nothing else either way.
pub proof fn law_a_name_is_redirected_to_or_nothing_happens(
    before: &Player,
    after: &Player,
    redirect: Option<Redirect>,
    bin: u64,
    name: Seq<char>,
    offset_ms: i64,
)
    requires
        before.redirects_to_name(after, redirect, bin, name, offset_ms),
    ensures
        after.files == before.files,
        after.passthrough == before.passthrough,
        after.recoveries == before.recoveries,
        redirect is None ==> {
            &&& after.clips@ == before.clips@
            &&& not_found(before.files@, name)
        },
        redirect matches Some(r) ==> {
            &&& found_at(before.files@, name, r.spawned.index as int)
            &&& after.clips@ == after_redirect(
                before.clips@,
                bin,
                r.spawned.index as int,
                offset_ms,
            )
            &&& r.cuts_to(
                before.files@,
                before.passthrough,
                before.clips@,
                bin,
                r.spawned.index as int,
                offset_ms,
            )
        },
{
}

/// A player is in order when it has a clip to play and every live clip is an
/// entry of its playlist; another player is set up alike when it has the same
/// files and decodes, or not, alike.
pub proof fn law_a_player_in_order_plays_its_own_clips(player: Player, other: Player)
    ensures
        player.wf() <==> player.files@.len() > 0 && forall|i: int|
            0 <= i < player.clips@.len() ==> (#[trigger] player.clips@[i]).index
                < player.files@.len(),
        player.same_setup(&other) <==> player.files == other.files && player.passthrough
            == other.passthrough,
{
}

} // verus!
