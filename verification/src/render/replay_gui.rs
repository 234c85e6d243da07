//! The replay viewer's navigation and the progress of a computation replay.
//! The viewer's text shows recorded numbers, which the program formats.

use vstd::prelude::*;
use crate::compute::replay::{at_end, ComputationTrace, TraceReplayer};

verus! {

/// A viewer of a computation's replay: the replay and whether the viewer
/// shows an evaluation's variables.
#[derive(Debug)]
pub struct ReplayViewer {
    replayer: TraceReplayer,
    show_variables: bool,
}

impl ReplayViewer {
    /// The replay.
    pub closed spec fn spec_replayer(&self) -> TraceReplayer {
        self.replayer
    }

    /// Whether an evaluation's variables are shown.
    pub closed spec fn spec_show_variables(&self) -> bool {
        self.show_variables
    }

    /// A viewer of `trace` at its first step, showing variables.
    pub fn new(trace: ComputationTrace) -> (r: Self)
        ensures
            r.spec_replayer().spec_trace() == trace,
            r.spec_replayer().position() == 0,
            r.spec_show_variables(),
    {
        ReplayViewer { replayer: TraceReplayer::new(trace), show_variables: true }
    }

    /// Moves to the next step unless at the end; says whether it moved.
    pub fn next(&mut self) -> (r: bool)
        ensures
            r == !at_end(old(self).spec_replayer().position(), old(self).spec_replayer().spec_trace().spec_steps().len()),
            final(self).spec_replayer().spec_trace() == old(self).spec_replayer().spec_trace(),
            final(self).spec_replayer().position() == if r {
                (old(self).spec_replayer().position() + 1) as usize
            } else {
                old(self).spec_replayer().position()
            },
            final(self).spec_show_variables() == old(self).spec_show_variables(),
    {
        if !self.replayer.is_at_end() {
            self.replayer.next();
            true
        } else {
            false
        }
    }

    /// Moves to the previous step unless at the first; says whether it moved.
    pub fn prev(&mut self) -> (r: bool)
        ensures
            r == (old(self).spec_replayer().position() > 0),
            final(self).spec_replayer().spec_trace() == old(self).spec_replayer().spec_trace(),
            final(self).spec_replayer().position() == if r {
                (old(self).spec_replayer().position() - 1) as usize
            } else {
                old(self).spec_replayer().position()
            },
            final(self).spec_show_variables() == old(self).spec_show_variables(),
    {
        if !self.replayer.is_at_start() {
            self.replayer.prev();
            true
        } else {
            false
        }
    }

    /// Moves to step `step` when the trace has it.
    pub fn jump_to(&mut self, step: usize)
        ensures
            final(self).spec_replayer().spec_trace() == old(self).spec_replayer().spec_trace(),
            final(self).spec_replayer().position() == if step < old(self).spec_replayer().spec_trace().spec_steps().len() {
                step
            } else {
                old(self).spec_replayer().position()
            },
            final(self).spec_show_variables() == old(self).spec_show_variables(),
    {
        self.replayer.jump_to(step);
    }

    /// Whether the replay is at its first step.
    pub fn is_at_start(&self) -> (r: bool)
        ensures
            r == (self.spec_replayer().position() == 0),
    {
        self.replayer.is_at_start()
    }

    /// Whether the replay is at its last step, or past it.
    pub fn is_at_end(&self) -> (r: bool)
        ensures
            r == at_end(self.spec_replayer().position(), self.spec_replayer().spec_trace().spec_steps().len()),
    {
        self.replayer.is_at_end()
    }

    /// The number of steps.
    pub fn total_steps(&self) -> (r: usize)
        ensures
            r == self.spec_replayer().spec_trace().spec_steps().len(),
    {
        self.replayer.total_steps()
    }

    /// Shows variables if hidden, hides them if shown.
    pub fn toggle_variables(&mut self)
        ensures
            final(self).spec_show_variables() == !old(self).spec_show_variables(),
            final(self).spec_replayer() == old(self).spec_replayer(),
    {
        self.show_variables = !self.show_variables;
    }

    /// Whether an evaluation's variables are shown.
    pub fn shows_variables(&self) -> (r: bool)
        ensures
            r == self.spec_show_variables(),
    {
        self.show_variables
    }

    /// The replay.
    pub fn replayer(&self) -> (r: &TraceReplayer)
        ensures
            *r == self.spec_replayer(),
    {
        &self.replayer
    }
}

/// How far a replay has got: the current step out of the total.
#[derive(Debug, Clone, Copy, PartialEq, Eq, Structural)]
pub struct ReplayProgress {
    current: usize,
    total: usize,
}

impl ReplayProgress {
    pub closed spec fn spec_current(&self) -> usize {
        self.current
    }

    pub closed spec fn spec_total(&self) -> usize {
        self.total
    }

    /// Progress at step 0 of `total`.
    pub fn new(total: usize) -> (r: Self)
        ensures
            r.spec_current() == 0,
            r.spec_total() == total,
    {
        ReplayProgress { current: 0, total }
    }

    /// Moves to step `current`, capped at the total.
    pub fn set(&mut self, current: usize)
        ensures
            final(self).spec_total() == old(self).spec_total(),
            final(self).spec_current() == if current < old(self).spec_total() {
                current
            } else {
                old(self).spec_total()
            },
    {
        self.current = if current < self.total { current } else { self.total };
    }

    /// The current step.
    pub fn current(&self) -> (r: usize)
        ensures
            r == self.spec_current(),
    {
        self.current
    }

    /// The number of steps.
    pub fn total(&self) -> (r: usize)
        ensures
            r == self.spec_total(),
    {
        self.total
    }
}

} // verus!
