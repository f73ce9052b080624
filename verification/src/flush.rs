//! The order in which the document is written over its backing file.
//!
//! The file is rewritten whole: reopened, cut to zero length, written, and
//! forced to durable storage. The caller does the work on the file and asks
//! after each step how to go on.

use vstd::prelude::*;

verus! {

/// One step of writing the document over the backing file.
#[derive(Clone, Copy, Debug, PartialEq, Eq, Structural)]
pub enum FlushStep {
    /// Open the backing file for reading and writing.
    Reopen,
    /// Cut the file to zero length.
    Truncate,
    /// Write the whole text.
    Write,
    /// Force what was written to durable storage.
    Sync,
}

/// How a flush goes on after a step.
#[derive(Clone, Copy, Debug, PartialEq, Eq, Structural)]
pub enum FlushProgress {
    /// The step to take next.
    Next(FlushStep),
    /// The text is written and the flush is over; the field says whether the
    /// sync succeeded.
    Done(bool),
    /// The step failed. The failure is to be reported, and nothing more is
    /// done to the file.
    Failed(FlushStep),
}

impl FlushStep {
    /// The place of the step in a flush, counted from zero.
    pub open spec fn position(self) -> int {
        match self {
            FlushStep::Reopen => 0,
            FlushStep::Truncate => 1,
            FlushStep::Write => 2,
            FlushStep::Sync => 3,
        }
    }

    /// The step that follows this one in a flush, `None` for the last.
    pub open spec fn successor(self) -> Option<FlushStep> {
        match self {
            FlushStep::Reopen => Some(FlushStep::Truncate),
            FlushStep::Truncate => Some(FlushStep::Write),
            FlushStep::Write => Some(FlushStep::Sync),
            FlushStep::Sync => None,
        }
    }

    /// How a flush goes on after this step, which succeeded or failed: with
    /// the step that follows where it succeeded, and not at all where it
    /// failed. After the last step the flush is over either way.
    pub open spec fn spec_proceed(self, succeeded: bool) -> FlushProgress {
        match self.successor() {
            Some(next) => if succeeded {
                FlushProgress::Next(next)
            } else {
                FlushProgress::Failed(self)
            },
            None => FlushProgress::Done(succeeded),
        }
    }

    /// The step that a flush begins with.
    pub fn first() -> (step: FlushStep)
        ensures
            step == FlushStep::Reopen,
    {
        FlushStep::Reopen
    }

    /// How a flush goes on after this step, which succeeded or failed. A step
    /// that succeeds is followed by the one next in order, so the file is cut
    /// before it is written and synced after; a step before the sync that
    /// fails ends the flush.
    pub fn proceed(self, succeeded: bool) -> (progress: FlushProgress)
        ensures
            progress == self.spec_proceed(succeeded),
            progress matches FlushProgress::Next(next) ==> next.position() == self.position() + 1,
    {
        match self {
            FlushStep::Reopen => if succeeded {
                FlushProgress::Next(FlushStep::Truncate)
            } else {
                FlushProgress::Failed(FlushStep::Reopen)
            },
            FlushStep::Truncate => if succeeded {
                FlushProgress::Next(FlushStep::Write)
            } else {
                FlushProgress::Failed(FlushStep::Truncate)
            },
            FlushStep::Write => if succeeded {
                FlushProgress::Next(FlushStep::Sync)
            } else {
                FlushProgress::Failed(FlushStep::Write)
            },
            FlushStep::Sync => FlushProgress::Done(succeeded),
        }
    }
}

} // verus!
