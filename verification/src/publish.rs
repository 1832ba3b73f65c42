//! The tee's publish slot: one branch occupies it, the RTSP publish when this
//! process holds the relay's path, a clock-paced sink that sends nothing when
//! it cannot (relay parked, another publisher on the path, the publish failed).
//! Either way the pipeline keeps playing.
//!
//! The acquirer polls the path and puts the publish in the moment the path is
//! free, never before, so that this process never kicks a live publisher off
//! it.

use crate::elements::{
    chain, make_encode_branch, make_fakesink_branch, publish_chain, swallow_chain, Element,
};
use crate::watchdog::{has_publisher, path_free};
use vstd::prelude::*;

verus! {

/// Poll cadence while waiting for the path to free, ms.
pub const RETRY_INTERVAL_MS: u64 = 500;

/// What holds the publish slot.
#[derive(Clone, Copy, Debug, PartialEq, Eq, Structural)]
pub enum Slot {
    Empty,
    Publish,
    Fakesink,
}

/// What putting a branch into the slot came to.
#[derive(Clone, Copy, Debug, PartialEq, Eq, Structural)]
pub enum SwapResult {
    /// The branch is in the slot and runs.
    Started,
    /// An element of it could not be made; the slot was not touched.
    NotMade,
    /// What was in the slot is gone, and the branch could not be linked in.
    NotWired,
    /// The branch is in the slot but did not start.
    NotStarted,
}

/// The publish slot.
pub struct Output {
    pub encoder_name: String,
    pub rtsp_url: String,
    /// What holds the slot.
    pub slot: Slot,
    /// The publish is up. The watchdog only alarms while it should be live.
    pub publishing: bool,
}

/// Times the gap that the acquirer closes: from the moment it sets about putting
/// the publish in until the first keyframe goes out. Readers show nothing
/// before that one.
pub struct GapClock {
    /// When the acquirer set about it, ms; `None` when no gap is being timed.
    pub since_ms: Option<u64>,
}

/// What to do at boot with the empty slot.
#[derive(Clone, Copy, Debug, PartialEq, Eq, Structural)]
pub enum BootStep {
    /// Publish at once.
    AttachPublish,
    /// Start map-only, and wake the acquirer.
    AttachFakesink,
}

/// What the acquirer does next.
#[derive(Clone, Copy, Debug, PartialEq, Eq, Structural)]
pub enum AcquirerStep {
    /// Wait until woken.
    Park,
    /// Sleep the poll interval, then probe the path.
    PollAgain,
    /// Put the publish into the slot.
    AttachPublish,
    /// Put the map-only branch back into the slot.
    AttachFakesink,
    /// End: nothing is left to hold the pipeline up.
    Stop,
}

/// What holds the slot after a swap to `branch`.
pub open spec fn slot_after(slot: Slot, branch: Slot, result: SwapResult) -> Slot {
    match result {
        SwapResult::Started => branch,
        SwapResult::NotMade => slot,
        SwapResult::NotWired => Slot::Empty,
        SwapResult::NotStarted => branch,
    }
}

fn swapped(slot: Slot, branch: Slot, result: SwapResult) -> (after: Slot)
    ensures
        after == slot_after(slot, branch, result),
{
    match result {
        SwapResult::Started => branch,
        SwapResult::NotMade => slot,
        SwapResult::NotWired => Slot::Empty,
        SwapResult::NotStarted => branch,
    }
}

/// The path was answered for, and without a publisher on it.
pub open spec fn answered_free(status: Option<&str>) -> bool {
    status matches Some(s) && !has_publisher(s@)
}

/// What to do at boot, by the path's answer.
pub open spec fn boot_choice(status: Option<&str>) -> BootStep {
    if answered_free(status) {
        BootStep::AttachPublish
    } else {
        BootStep::AttachFakesink
    }
}

/// What the acquirer does after a probe, by the path's answer.
pub open spec fn probe_choice(publishing: bool, status: Option<&str>) -> AcquirerStep {
    if answered_free(status) {
        AcquirerStep::AttachPublish
    } else if publishing {
        AcquirerStep::Park
    } else {
        AcquirerStep::PollAgain
    }
}

/// Which of the acquirer's probes puts the publish in, by the answers they
/// get; their number when none does.
pub open spec fn acquired_at(answers: Seq<Option<&str>>) -> int
    decreases answers.len(),
{
    if answers.len() == 0 || probe_choice(false, answers[0]) == AcquirerStep::AttachPublish {
        0
    } else {
        1 + acquired_at(answers.drop_first())
    }
}

impl Output {
    /// The publish counts as up only while its branch holds the slot.
    pub open spec fn wf(&self) -> bool {
        self.publishing ==> self.slot == Slot::Publish
    }

    /// Where the stream goes, and through which encoder.
    pub open spec fn same_target(&self, other: &Output) -> bool {
        self.encoder_name == other.encoder_name && self.rtsp_url == other.rtsp_url
    }

    /// An empty slot.
    pub fn new(encoder_name: String, rtsp_url: String) -> (output: Output)
        ensures
            output.wf(),
            output.encoder_name == encoder_name,
            output.rtsp_url == rtsp_url,
            output.slot == Slot::Empty,
            !output.publishing,
    {
        Output { encoder_name, rtsp_url, slot: Slot::Empty, publishing: false }
    }

    /// The elements of the publish branch.
    pub fn publish_branch(&self) -> (branch: Vec<Element>)
        ensures
            chain(branch@) == publish_chain(self.encoder_name@, self.rtsp_url@),
    {
        make_encode_branch(self.encoder_name.as_str(), self.rtsp_url.as_str())
    }

    /// The elements of the map-only branch.
    pub fn fakesink_branch(&self) -> (branch: Vec<Element>)
        ensures
            chain(branch@) == swallow_chain(),
    {
        make_fakesink_branch()
    }

    /// What to do at boot, by the path's answer (`None`: the relay did not
    /// answer).
    pub fn boot_step(status: Option<&str>) -> (step: BootStep)
        ensures
            step == boot_choice(status),
    {
        if path_free(status) {
            BootStep::AttachPublish
        } else {
            BootStep::AttachFakesink
        }
    }

    /// Take in what putting the publish into the slot came to. Whether it is
    /// up now.
    pub fn attach_publish(&mut self, result: SwapResult) -> (up: bool)
        ensures
            up == (result == SwapResult::Started),
            final(self).same_target(old(self)),
            final(self).slot == slot_after(old(self).slot, Slot::Publish, result),
            final(self).publishing == (old(self).publishing || up),
            !old(self).publishing ==> final(self).wf(),
    {
        self.slot = swapped(self.slot, Slot::Publish, result);
        match result {
            SwapResult::Started => {
                self.publishing = true;
                true
            },
            _ => false,
        }
    }

    /// Take in what putting the map-only branch into the slot came to. Whether
    /// it runs now.
    pub fn attach_fakesink(&mut self, result: SwapResult) -> (up: bool)
        ensures
            up == (result == SwapResult::Started),
            final(self).same_target(old(self)),
            final(self).slot == slot_after(old(self).slot, Slot::Fakesink, result),
            !final(self).publishing,
            final(self).wf(),
    {
        self.publishing = false;
        self.slot = swapped(self.slot, Slot::Fakesink, result);
        match result {
            SwapResult::Started => true,
            _ => false,
        }
    }

    /// An error on the pipeline's bus: `fakesink` is what putting the map-only
    /// branch into the slot came to, when the error came from the slot's
    /// branch (a rejected or kicked publish). Whether it was absorbed, and the
    /// acquirer is to be woken: not when the error is not the slot's, or when
    /// even the map-only branch did not start, which leaves nothing to hold the
    /// pipeline up.
    pub fn on_error(&mut self, fakesink: Option<SwapResult>) -> (absorbed: bool)
        ensures
            absorbed == (fakesink == Some(SwapResult::Started)),
            final(self).same_target(old(self)),
            fakesink is None ==> *final(self) == *old(self),
            fakesink matches Some(result) ==> {
                &&& final(self).slot == slot_after(old(self).slot, Slot::Fakesink, result)
                &&& !final(self).publishing
            },
            old(self).wf() ==> final(self).wf(),
    {
        match fakesink {
            None => false,
            Some(result) => self.attach_fakesink(result),
        }
    }

    /// The acquirer was woken, or a poll is over: poll until the publish is up.
    pub fn acquirer_next(&self) -> (step: AcquirerStep)
        ensures
            step == (if self.publishing { AcquirerStep::Park } else { AcquirerStep::PollAgain }),
    {
        if self.publishing {
            AcquirerStep::Park
        } else {
            AcquirerStep::PollAgain
        }
    }

    /// The acquirer probed the path: publish when it is free, else poll on.
    pub fn acquirer_probed(&self, status: Option<&str>) -> (step: AcquirerStep)
        ensures
            step == probe_choice(self.publishing, status),
    {
        if path_free(status) {
            AcquirerStep::AttachPublish
        } else {
            self.acquirer_next()
        }
    }

    /// The acquirer put the publish into the slot. When that failed, it falls
    /// back to the map-only branch.
    pub fn acquirer_attached(&mut self, result: SwapResult) -> (step: AcquirerStep)
        ensures
            final(self).same_target(old(self)),
            final(self).slot == slot_after(old(self).slot, Slot::Publish, result),
            final(self).publishing == (old(self).publishing || result == SwapResult::Started),
            !old(self).publishing ==> final(self).wf(),
            step == (if result == SwapResult::Started {
                AcquirerStep::Park
            } else {
                AcquirerStep::AttachFakesink
            }),
    {
        if self.attach_publish(result) {
            self.acquirer_next()
        } else {
            AcquirerStep::AttachFakesink
        }
    }

    /// The acquirer fell back to the map-only branch.
    pub fn acquirer_fell_back(&mut self, result: SwapResult) -> (step: AcquirerStep)
        ensures
            final(self).same_target(old(self)),
            final(self).slot == slot_after(old(self).slot, Slot::Fakesink, result),
            !final(self).publishing,
            final(self).wf(),
            step == (if result == SwapResult::Started {
                AcquirerStep::PollAgain
            } else {
                AcquirerStep::Stop
            }),
    {
        if self.attach_fakesink(result) {
            self.acquirer_next()
        } else {
            AcquirerStep::Stop
        }
    }
}

impl GapClock {
    /// No gap is being timed.
    pub fn new() -> (clock: GapClock)
        ensures
            clock.since_ms is None,
    {
        GapClock { since_ms: None }
    }

    /// The acquirer sets about putting the publish in.
    pub fn on_attach(&mut self, now_ms: u64)
        ensures
            final(self).since_ms == Some(now_ms),
    {
        self.since_ms = Some(now_ms);
    }

    /// A frame goes out on the publish. The length of the gap it closes, ms:
    /// the first keyframe since the acquirer set about it closes one.
    pub fn on_frame(&mut self, keyframe: bool, now_ms: u64) -> (gap_ms: Option<u64>)
        ensures
            if old(self).since_ms is Some && keyframe {
                &&& final(self).since_ms is None
                &&& gap_ms == Some(elapsed(old(self).since_ms->0, now_ms))
            } else {
                &&& *final(self) == *old(self)
                &&& gap_ms is None
            },
    {
        if let Some(since) = self.since_ms {
            if keyframe {
                self.since_ms = None;
                return Some(now_ms.saturating_sub(since));
            }
        }
        None
    }
}

/// The time from `since` to `now`, none when the clock went back.
pub open spec fn elapsed(since: u64, now: u64) -> u64 {
    if now >= since {
        (now - since) as u64
    } else {
        0
    }
}

/// What can happen to the slot.
pub enum SlotEvent {
    /// At boot, or by the acquirer: the publish was put in.
    Published(SwapResult),
    /// At boot, by an error of the slot's branch, or by the acquirer's
    /// fallback: the map-only branch was put in.
    Swallowed(SwapResult),
}

/// The slot and whether the publish is up, after `events`. The publish is only
/// put in while it is not up.
pub open spec fn slot_history(events: Seq<SlotEvent>) -> (Slot, bool)
    decreases events.len(),
{
    if events.len() == 0 {
        (Slot::Empty, false)
    } else {
        let (slot, publishing) = slot_history(events.drop_last());
        match events.last() {
            SlotEvent::Published(result) => if publishing {
                (slot, publishing)
            } else {
                (slot_after(slot, Slot::Publish, result), result == SwapResult::Started)
            },
            SlotEvent::Swallowed(result) => (slot_after(slot, Slot::Fakesink, result), false),
        }
    }
}

/// Whatever happened, the publish counts as up only while its branch holds the
/// slot; and once every swap found its elements and its links, the slot is
/// never empty after the first of them.
pub proof fn law_the_slot_is_occupied(events: Seq<SlotEvent>)
    ensures
        slot_history(events).1 ==> slot_history(events).0 == Slot::Publish,
        events.len() > 0 && (forall|i: int|
            0 <= i < events.len() ==> match #[trigger] events[i] {
                SlotEvent::Published(r) => r == SwapResult::Started || r == SwapResult::NotStarted,
                SlotEvent::Swallowed(r) => r == SwapResult::Started || r == SwapResult::NotStarted,
            }) ==> slot_history(events).0 != Slot::Empty,
    decreases events.len(),
{
    if events.len() > 0 {
        let front = events.drop_last();
        law_the_slot_is_occupied(front);
        assert(forall|i: int| 0 <= i < front.len() ==> front[i] == events[i]);
        assert(events.last() == events[events.len() - 1]);
    }
}

/// The publish is put in the moment the path is free, and never before: at
/// boot, and by the acquirer at the first probe that the relay answers without
/// a publisher on the path. A live publisher is never kicked off the path, and
/// a relay that does not answer is not published to.
pub proof fn law_published_as_soon_as_the_path_is_free(answers: Seq<Option<&str>>)
    ensures
        answers.len() > 0 ==> (boot_choice(answers[0]) == BootStep::AttachPublish <==> (
        answers[0] is Some && !has_publisher(answers[0]->0@))),
        0 <= acquired_at(answers) <= answers.len(),
        forall|i: int|
            0 <= i < acquired_at(answers) ==> ((#[trigger] answers[i]) is None || has_publisher(
                answers[i]->0@,
            )),
        acquired_at(answers) < answers.len() ==> ({
            let first = answers[acquired_at(answers)];
            first is Some && !has_publisher(first->0@)
        }),
    decreases answers.len(),
{
    if answers.len() > 0 && !answered_free(answers[0]) {
        let rest = answers.drop_first();
        law_published_as_soon_as_the_path_is_free(rest);
        assert forall|i: int| 0 <= i < acquired_at(answers) implies ((#[trigger] answers[i]) is None
            || has_publisher(answers[i]->0@)) by {
            if i > 0 {
                assert(answers[i] == rest[i - 1]);
            }
        }
    }
}

/// A branch that was wired in holds the slot, started or not; one that could
/// not be made leaves the slot as it was, and one that could not be wired in
/// leaves it empty.
pub proof fn law_a_swap_leaves_what_it_wired_in(slot: Slot, branch: Slot)
    ensures
        slot_after(slot, branch, SwapResult::Started) == branch,
        slot_after(slot, branch, SwapResult::NotStarted) == branch,
        slot_after(slot, branch, SwapResult::NotMade) == slot,
        slot_after(slot, branch, SwapResult::NotWired) == Slot::Empty,
{
}

/// A path is free exactly when the relay answers for it and the answer does not
/// begin with `RTSP/1.0 200`. A free path is published to, at boot and by the
/// acquirer; any other starts map-only, and is polled again unless the publish
/// is up.
pub proof fn law_only_a_free_path_is_published_to(publishing: bool, status: Option<&str>)
    ensures
        ({
            let held = status is Some && status->0@.len() >= 12 && status->0@.take(12)
                == "RTSP/1.0 200"@;
            let free = status is Some && !held;
            &&& answered_free(status) == free
            &&& boot_choice(status) == (if free {
                BootStep::AttachPublish
            } else {
                BootStep::AttachFakesink
            })
            &&& probe_choice(publishing, status) == (if free {
                AcquirerStep::AttachPublish
            } else if publishing {
                AcquirerStep::Park
            } else {
                AcquirerStep::PollAgain
            })
        }),
{
    reveal_strlit("RTSP/1.0 200");
}

/// A slot is in order when the publish that counts as up holds it; two slots
/// have the same target when they have the same encoder and the same url.
pub proof fn law_a_publish_that_is_up_holds_the_slot(output: Output, other: Output)
    ensures
        output.wf() <==> (output.publishing ==> output.slot == Slot::Publish),
        output.same_target(&other) <==> output.encoder_name == other.encoder_name
            && output.rtsp_url == other.rtsp_url,
{
}

/// A gap lasts from its start to its end, and nothing when the clock went back.
pub proof fn law_a_gap_lasts_to_its_end(since: u64, now: u64)
    ensures
        now >= since ==> since + elapsed(since, now) == now,
        now < since ==> elapsed(since, now) == 0,
{
}

} // verus!
