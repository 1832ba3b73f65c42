//! The main loop's decisions: output-frame accounting, operator commands, and
//! what ends the run and how.

use crate::text;
use vstd::prelude::*;

verus! {

/// Time between two frames of the corpus, ns: 60 a second.
pub const FRAME_INTERVAL_NS: u64 = 16_666_666;

/// A frame that comes later than this after the one before it is a gap, ns:
/// one and a half frame intervals.
pub const GAP_THRESHOLD_NS: u64 = 24_999_999;

/// The timestamp that stands for no frame at all.
pub const NO_FRAME: u64 = u64::MAX;

/// One output frame is a gap when its timestamp lands more than `threshold_ns`
/// after the previous frame's: a visible stall or drop. A previous timestamp
/// of [`NO_FRAME`] means that there is no previous frame.
pub fn is_frame_gap(prev_ns: u64, ts_ns: u64, threshold_ns: u64) -> (gap: bool)
    ensures
        gap == (prev_ns != NO_FRAME && ts_ns - prev_ns > threshold_ns),
{
    prev_ns != NO_FRAME && ts_ns > prev_ns.saturating_add(threshold_ns)
}

/// The output frames seen so far, as far as telling gaps needs them.
pub struct FrameTap {
    /// Timestamp of the last frame that had one; [`NO_FRAME`] before that.
    pub last_ns: u64,
}

impl FrameTap {
    /// No frame seen yet.
    pub fn new() -> (tap: FrameTap)
        ensures
            tap.last_ns == NO_FRAME,
    {
        FrameTap { last_ns: NO_FRAME }
    }

    /// A frame passes, with its decode timestamp, or its presentation one
    /// where it has no other. Whether it comes after a gap.
    pub fn on_frame(&mut self, ts_ns: Option<u64>) -> (gap: bool)
        ensures
            final(self).last_ns == (match ts_ns {
                Some(ts) => ts,
                None => old(self).last_ns,
            }),
            gap == (ts_ns is Some && old(self).last_ns != NO_FRAME && ts_ns->0 - old(self).last_ns
                > GAP_THRESHOLD_NS),
    {
        match ts_ns {
            Some(ts) => {
                let prev: u64 = self.last_ns;
                self.last_ns = ts;
                is_frame_gap(prev, ts, GAP_THRESHOLD_NS)
            },
            None => false,
        }
    }
}

/// What a line on standard input asks for.
#[derive(Clone, Copy, Debug, PartialEq, Eq, Structural)]
pub enum StdinCommand {
    /// Cut to the prerolled clip.
    Jump,
    /// Shut down, and read no further.
    Quit,
    /// Nothing.
    Nothing,
}

/// What `line` asks for. Whitespace around the command does not matter.
pub fn stdin_command(line: &str) -> (command: StdinCommand)
    ensures
        command == (if text::trimmed(line@) == "j"@ {
            StdinCommand::Jump
        } else if text::trimmed(line@) == "q"@ {
            StdinCommand::Quit
        } else {
            StdinCommand::Nothing
        }),
{
    let word: &str = text::trim(line);
    if text::same(word, "j") {
        StdinCommand::Jump
    } else if text::same(word, "q") {
        StdinCommand::Quit
    } else {
        StdinCommand::Nothing
    }
}

/// What happens to the run.
#[derive(Clone, Copy, Debug, PartialEq, Eq, Structural)]
pub enum RunEvent {
    /// A pipeline error that a clip or the output absorbed.
    AbsorbedError,
    /// A pipeline error that nothing absorbed.
    PipelineError,
    /// The pipeline's stream ended. It has no end, so this is a failure.
    EndOfStream,
    /// The watchdog found the publish dead.
    PublishDead,
    /// A termination or interrupt signal.
    Signal,
    /// The operator asked for it.
    OperatorQuit,
}

/// What an error on the pipeline's bus is to the run, by whether a clip
/// absorbed it, and whether, failing that, the publish slot did.
pub fn error_event(clip_absorbed: bool, output_absorbed: bool) -> (event: RunEvent)
    ensures
        event == (if clip_absorbed || output_absorbed {
            RunEvent::AbsorbedError
        } else {
            RunEvent::PipelineError
        }),
{
    if clip_absorbed || output_absorbed {
        RunEvent::AbsorbedError
    } else {
        RunEvent::PipelineError
    }
}

/// The run, as far as its end is concerned.
pub struct Run {
    /// Something failed, so the process has to exit non-zero to be restarted.
    pub failed: bool,
}

/// The event is a failure of the run.
pub open spec fn fails(event: RunEvent) -> bool {
    event == RunEvent::PipelineError || event == RunEvent::EndOfStream || event
        == RunEvent::PublishDead
}

/// The event ends the run.
pub open spec fn ends(event: RunEvent) -> bool {
    event != RunEvent::AbsorbedError
}

impl Run {
    /// Nothing has failed.
    pub fn new() -> (run: Run)
        ensures
            !run.failed,
    {
        Run { failed: false }
    }

    /// Take in an event. Whether the main loop has to quit.
    pub fn on_event(&mut self, event: RunEvent) -> (quit: bool)
        ensures
            quit == ends(event),
            final(self).failed == (old(self).failed || fails(event)),
    {
        match event {
            RunEvent::AbsorbedError => false,
            RunEvent::PipelineError | RunEvent::EndOfStream | RunEvent::PublishDead => {
                self.failed = true;
                true
            },
            RunEvent::Signal | RunEvent::OperatorQuit => true,
        }
    }
}

/// Whether a run that took in `events` has failed.
pub open spec fn has_failed(events: Seq<RunEvent>) -> bool
    decreases events.len(),
{
    events.len() > 0 && (has_failed(events.drop_last()) || fails(events.last()))
}

/// A run exits clean unless something failed: it has failed exactly when one
/// of its events is a failure. Signals, the operator and absorbed errors alone
/// leave it clean, and nothing that comes after a failure hides it.
pub proof fn law_only_failures_exit_non_zero(events: Seq<RunEvent>)
    ensures
        has_failed(events) <==> exists|i: int| 0 <= i < events.len() && fails(#[trigger] events[i]),
    decreases events.len(),
{
    if events.len() > 0 {
        law_only_failures_exit_non_zero(events.drop_last());
        let last = events.len() - 1;
        assert(events.last() == events[last]);
        if exists|i: int| 0 <= i < events.len() && fails(#[trigger] events[i]) {
            let i = choose|i: int| 0 <= i < events.len() && fails(#[trigger] events[i]);
            if i < last {
                assert(fails(events.drop_last()[i]));
            }
        }
        if has_failed(events.drop_last()) {
            let i = choose|i: int|
                0 <= i < events.drop_last().len() && fails(#[trigger] events.drop_last()[i]);
            assert(fails(events[i]));
        }
    }
}

/// An unabsorbed pipeline error, the end of the stream and a dead publish fail
/// the run; a signal and the operator end it without; an absorbed error does
/// neither.
pub proof fn law_what_ends_the_run_and_what_fails_it(event: RunEvent)
    ensures
        fails(event) <==> {
            ||| event == RunEvent::PipelineError
            ||| event == RunEvent::EndOfStream
            ||| event == RunEvent::PublishDead
        },
        ends(event) <==> fails(event) || event == RunEvent::Signal || event
            == RunEvent::OperatorQuit,
{
}

} // verus!
