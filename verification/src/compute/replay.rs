//! Step-by-step records of computations and their replay.
//!
//! Variable values and results are `f64` numbers; a record keeps each as its
//! bit pattern (as `f64::to_bits` gives it).

use vstd::prelude::*;
use crate::text::{string_push_str, to_owned_string};

verus! {

/// A step of a computation, as plain values.
pub struct StepView {
    pub step: usize,
    pub description: Seq<char>,
    pub expression: Seq<char>,
    pub variable_bits: Option<Seq<(Seq<char>, u64)>>,
    pub result_bits: Option<u64>,
    pub is_simplification: bool,
    pub is_evaluation: bool,
    pub parent: Option<usize>,
}

/// The variables of an evaluation step, as plain values.
pub open spec fn bindings_view(v: Seq<(String, u64)>) -> Seq<(Seq<char>, u64)> {
    v.map_values(|b: (String, u64)| (b.0@, b.1))
}

/// One step of a computation.
#[derive(Debug, Clone)]
pub struct ComputationStep {
    /// The step's position in its trace.
    pub step: usize,
    pub description: String,
    /// The expression at this step.
    pub expression: String,
    /// The variables of an evaluation, each with the bits of its value.
    pub variable_bits: Option<Vec<(String, u64)>>,
    /// The bits of an evaluation's result.
    pub result_bits: Option<u64>,
    pub is_simplification: bool,
    pub is_evaluation: bool,
    /// The step before this one.
    pub parent: Option<usize>,
}

impl View for ComputationStep {
    type V = StepView;

    open spec fn view(&self) -> StepView {
        StepView {
            step: self.step,
            description: self.description@,
            expression: self.expression@,
            variable_bits: match self.variable_bits {
                Some(v) => Some(bindings_view(v@)),
                None => None,
            },
            result_bits: self.result_bits,
            is_simplification: self.is_simplification,
            is_evaluation: self.is_evaluation,
            parent: self.parent,
        }
    }
}

/// The steps of a trace, as plain values.
pub open spec fn steps_view(s: Seq<ComputationStep>) -> Seq<StepView> {
    s.map_values(|c: ComputationStep| c@)
}

/// The number of the last step, if there is one.
pub open spec fn last_step_number(steps: Seq<StepView>) -> Option<usize> {
    if steps.len() == 0 {
        None
    } else {
        Some(steps.last().step)
    }
}

/// The step that comes after `steps`: numbered by its position, its parent
/// the number of the step before it.
pub open spec fn next_step(
    steps: Seq<StepView>,
    description: Seq<char>,
    expression: Seq<char>,
    variable_bits: Option<Seq<(Seq<char>, u64)>>,
    result_bits: Option<u64>,
    is_simplification: bool,
    is_evaluation: bool,
) -> StepView {
    StepView {
        step: steps.len() as usize,
        description,
        expression,
        variable_bits,
        result_bits,
        is_simplification,
        is_evaluation,
        parent: last_step_number(steps),
    }
}

/// A complete computation trace: the input, the steps in order, and the
/// result and elapsed time once they are known.
#[derive(Debug, Clone)]
pub struct ComputationTrace {
    pub input: String,
    pub steps: Vec<ComputationStep>,
    /// The bits of the final result.
    pub final_result_bits: Option<u64>,
    /// Total time elapsed, in microseconds.
    pub elapsed_us: Option<u64>,
}

impl ComputationTrace {
    /// The steps, as plain values.
    pub open spec fn spec_steps(&self) -> Seq<StepView> {
        steps_view(self.steps@)
    }

    /// An empty trace of `input`.
    pub fn new(input: &str) -> (r: Self)
        ensures
            r.input@ == input@,
            r.spec_steps().len() == 0,
            r.final_result_bits is None,
            r.elapsed_us is None,
    {
        ComputationTrace {
            input: to_owned_string(input),
            steps: Vec::new(),
            final_result_bits: None,
            elapsed_us: None,
        }
    }

    fn push_step(
        &mut self,
        description: &str,
        expression: &str,
        variable_bits: Option<Vec<(String, u64)>>,
        result_bits: Option<u64>,
        is_simplification: bool,
        is_evaluation: bool,
    )
        ensures
            final(self).spec_steps() == old(self).spec_steps().push(
                next_step(
                    old(self).spec_steps(),
                    description@,
                    expression@,
                    match variable_bits {
                        Some(v) => Some(bindings_view(v@)),
                        None => None,
                    },
                    result_bits,
                    is_simplification,
                    is_evaluation,
                ),
            ),
            final(self).input == old(self).input,
            final(self).final_result_bits == old(self).final_result_bits,
            final(self).elapsed_us == old(self).elapsed_us,
    {
        let n = self.steps.len();
        let parent = if n == 0 {
            None
        } else {
            Some(self.steps[n - 1].step)
        };
        proof {
            if n > 0 {
                assert(steps_view(self.steps@).last() == self.steps@[n - 1]@);
            }
        }
        let step = ComputationStep {
            step: n,
            description: to_owned_string(description),
            expression: to_owned_string(expression),
            variable_bits,
            result_bits,
            is_simplification,
            is_evaluation,
            parent,
        };
        self.steps.push(step);
        assert(steps_view(self.steps@) =~= steps_view(old(self).steps@).push(step@));
    }

    /// Adds a simplification step for the expression text.
    pub fn add_simplification(&mut self, expression: &str, description: &str)
        ensures
            final(self).spec_steps() == old(self).spec_steps().push(
                next_step(old(self).spec_steps(), description@, expression@, None, None, true, false),
            ),
            final(self).input == old(self).input,
            final(self).final_result_bits == old(self).final_result_bits,
            final(self).elapsed_us == old(self).elapsed_us,
    {
        self.push_step(description, expression, None, None, true, false);
    }

    /// Adds an evaluation step: the expression text, the variables with the
    /// bits of their values, and the bits of the result.
    pub fn add_evaluation(
        &mut self,
        expression: &str,
        variable_bits: Vec<(String, u64)>,
        result_bits: u64,
        description: &str,
    )
        ensures
            final(self).spec_steps() == old(self).spec_steps().push(
                next_step(
                    old(self).spec_steps(),
                    description@,
                    expression@,
                    Some(bindings_view(variable_bits@)),
                    Some(result_bits),
                    false,
                    true,
                ),
            ),
            final(self).input == old(self).input,
            final(self).final_result_bits == old(self).final_result_bits,
            final(self).elapsed_us == old(self).elapsed_us,
    {
        self.push_step(description, expression, Some(variable_bits), Some(result_bits), false, true);
    }

    /// Adds a general step.
    pub fn add_step(&mut self, description: &str, expression: &str)
        ensures
            final(self).spec_steps() == old(self).spec_steps().push(
                next_step(old(self).spec_steps(), description@, expression@, None, None, false, false),
            ),
            final(self).input == old(self).input,
            final(self).final_result_bits == old(self).final_result_bits,
            final(self).elapsed_us == old(self).elapsed_us,
    {
        self.push_step(description, expression, None, None, false, false);
    }

    /// Records the bits of the final result.
    pub fn set_result(&mut self, result_bits: u64)
        ensures
            final(self).final_result_bits == Some(result_bits),
            final(self).spec_steps() == old(self).spec_steps(),
            final(self).input == old(self).input,
            final(self).elapsed_us == old(self).elapsed_us,
    {
        self.final_result_bits = Some(result_bits);
    }

    /// Records the elapsed time in microseconds.
    pub fn set_elapsed(&mut self, us: u64)
        ensures
            final(self).elapsed_us == Some(us),
            final(self).spec_steps() == old(self).spec_steps(),
            final(self).input == old(self).input,
            final(self).final_result_bits == old(self).final_result_bits,
    {
        self.elapsed_us = Some(us);
    }

    /// The number of steps.
    pub fn step_count(&self) -> (r: usize)
        ensures
            r == self.spec_steps().len(),
    {
        self.steps.len()
    }

    /// The steps, in order.
    pub fn steps(&self) -> (r: &[ComputationStep])
        ensures
            steps_view(r@) == self.spec_steps(),
    {
        self.steps.as_slice()
    }
}

/// Builds a trace step by step.
#[derive(Debug)]
pub struct TraceBuilder {
    trace: ComputationTrace,
}

impl TraceBuilder {
    /// The trace built so far.
    pub closed spec fn spec_trace(&self) -> ComputationTrace {
        self.trace
    }

    /// A builder of an empty trace of `input`.
    pub fn new(input: &str) -> (r: Self)
        ensures
            r.spec_trace().input@ == input@,
            r.spec_trace().spec_steps().len() == 0,
            r.spec_trace().final_result_bits is None,
            r.spec_trace().elapsed_us is None,
    {
        TraceBuilder { trace: ComputationTrace::new(input) }
    }

    /// Records the parsed expression.
    pub fn record_parse(&mut self, expression: &str)
        ensures
            final(self).spec_trace().spec_steps() == old(self).spec_trace().spec_steps().push(
                next_step(
                    old(self).spec_trace().spec_steps(),
                    "Parsed expression"@,
                    expression@,
                    None,
                    None,
                    false,
                    false,
                ),
            ),
            final(self).spec_trace().input == old(self).spec_trace().input,
    {
        self.trace.add_step("Parsed expression", expression);
    }

    /// Records the simplified expression.
    pub fn record_simplify(&mut self, expression: &str)
        ensures
            final(self).spec_trace().spec_steps() == old(self).spec_trace().spec_steps().push(
                next_step(
                    old(self).spec_trace().spec_steps(),
                    "Simplified expression"@,
                    expression@,
                    None,
                    None,
                    true,
                    false,
                ),
            ),
            final(self).spec_trace().input == old(self).spec_trace().input,
    {
        self.trace.add_simplification(expression, "Simplified expression");
    }

    /// Records an evaluation with its variables and result, as bits.
    pub fn record_evaluate(&mut self, expression: &str, variable_bits: Vec<(String, u64)>, result_bits: u64)
        ensures
            final(self).spec_trace().spec_steps() == old(self).spec_trace().spec_steps().push(
                next_step(
                    old(self).spec_trace().spec_steps(),
                    "Evaluated with variables"@,
                    expression@,
                    Some(bindings_view(variable_bits@)),
                    Some(result_bits),
                    false,
                    true,
                ),
            ),
            final(self).spec_trace().input == old(self).spec_trace().input,
    {
        self.trace.add_evaluation(expression, variable_bits, result_bits, "Evaluated with variables");
    }

    /// Records a derivative taken with respect to `var`.
    pub fn record_differentiate(&mut self, expression: &str, var: &str)
        ensures
            final(self).spec_trace().spec_steps() == old(self).spec_trace().spec_steps().push(
                next_step(
                    old(self).spec_trace().spec_steps(),
                    "Differentiated with respect to "@ + var@,
                    expression@,
                    None,
                    None,
                    false,
                    false,
                ),
            ),
            final(self).spec_trace().input == old(self).spec_trace().input,
    {
        let mut description = to_owned_string("Differentiated with respect to ");
        string_push_str(&mut description, var);
        self.trace.add_step(description.as_str(), expression);
    }

    /// The trace.
    pub fn build(self) -> (r: ComputationTrace)
        ensures
            r == self.spec_trace(),
    {
        self.trace
    }
}

/// Steps through a trace.
#[derive(Debug)]
pub struct TraceReplayer {
    trace: ComputationTrace,
    current_step: usize,
}

/// Whether position `cur` is the last step of `n` (or past it); an empty
/// trace counts as at its end.
pub open spec fn at_end(cur: usize, n: nat) -> bool {
    cur >= if n > 0 { n - 1 } else { 0 }
}

impl TraceReplayer {
    pub closed spec fn spec_trace(&self) -> ComputationTrace {
        self.trace
    }

    /// The position of the current step.
    pub closed spec fn position(&self) -> usize {
        self.current_step
    }

    /// The current step, if the position holds one.
    pub open spec fn current(&self) -> Option<StepView> {
        if self.position() < self.spec_trace().spec_steps().len() {
            Some(self.spec_trace().spec_steps()[self.position() as int])
        } else {
            None
        }
    }

    /// A replay of `trace` from its first step.
    pub fn new(trace: ComputationTrace) -> (r: Self)
        ensures
            r.spec_trace() == trace,
            r.position() == 0,
    {
        TraceReplayer { trace, current_step: 0 }
    }

    /// The current step, if any.
    pub fn current_step(&self) -> (r: Option<&ComputationStep>)
        ensures
            match r {
                Some(s) => self.current() == Some(s@),
                None => self.current() is None,
            },
    {
        if self.current_step < self.trace.steps.len() {
            Some(&self.trace.steps[self.current_step])
        } else {
            None
        }
    }

    /// Moves to the next step unless at the end, then gives the current step.
    pub fn next(&mut self) -> (r: Option<&ComputationStep>)
        ensures
            final(self).spec_trace() == old(self).spec_trace(),
            final(self).position() == if at_end(old(self).position(), old(self).spec_trace().spec_steps().len()) {
                old(self).position()
            } else {
                (old(self).position() + 1) as usize
            },
            match r {
                Some(s) => final(self).current() == Some(s@),
                None => final(self).current() is None,
            },
    {
        let n = self.trace.steps.len();
        if !self.is_at_end() {
            assert(self.current_step < n);
            self.current_step = self.current_step + 1;
        }
        self.current_step()
    }

    /// Moves to the previous step unless at the first, then gives the current step.
    pub fn prev(&mut self) -> (r: Option<&ComputationStep>)
        ensures
            final(self).spec_trace() == old(self).spec_trace(),
            final(self).position() == if old(self).position() > 0 {
                (old(self).position() - 1) as usize
            } else {
                0
            },
            match r {
                Some(s) => final(self).current() == Some(s@),
                None => final(self).current() is None,
            },
    {
        if self.current_step > 0 {
            self.current_step = self.current_step - 1;
        }
        self.current_step()
    }

    /// Moves to step `step` when the trace has it, then gives the current step.
    pub fn jump_to(&mut self, step: usize) -> (r: Option<&ComputationStep>)
        ensures
            final(self).spec_trace() == old(self).spec_trace(),
            final(self).position() == if step < old(self).spec_trace().spec_steps().len() {
                step
            } else {
                old(self).position()
            },
            match r {
                Some(s) => final(self).current() == Some(s@),
                None => final(self).current() is None,
            },
    {
        if step < self.trace.steps.len() {
            self.current_step = step;
        }
        self.current_step()
    }

    /// The number of steps.
    pub fn total_steps(&self) -> (r: usize)
        ensures
            r == self.spec_trace().spec_steps().len(),
    {
        self.trace.steps.len()
    }

    /// Whether the current position is the last step, or past it.
    pub fn is_at_end(&self) -> (r: bool)
        ensures
            r == at_end(self.position(), self.spec_trace().spec_steps().len()),
    {
        self.current_step >= self.trace.steps.len().saturating_sub(1)
    }

    /// Whether the current position is the first step.
    pub fn is_at_start(&self) -> (r: bool)
        ensures
            r == (self.position() == 0),
    {
        self.current_step == 0
    }

    /// The trace being replayed.
    pub fn trace(&self) -> (r: &ComputationTrace)
        ensures
            *r == self.spec_trace(),
    {
        &self.trace
    }
}

/// Stepping forward and then back returns to the same step, from any step
/// before the last.
pub proof fn lemma_next_then_prev(cur: usize, n: nat)
    requires
        n <= usize::MAX,
        !at_end(cur, n),
    ensures
        ({
            let forward = if at_end(cur, n) { cur } else { (cur + 1) as usize };
            let back = if forward > 0 { (forward - 1) as usize } else { 0usize };
            back == cur
        }),
{
}

} // verus!
