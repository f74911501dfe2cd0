//! The gradient-descent run as a state machine.
//!
//! A run is begun by [`nn_model`], which checks its inputs and sets the
//! parameters to their initial values. The caller then repeats: read the
//! parameters, carry out one iteration (forward pass, cost, gradients,
//! update), and report the cost and the updated parameters to
//! [`Trainer::advance`], which decides whether the cost is recorded, whether
//! the run goes on, is complete, or is abandoned.

use crate::encoding::{finite, is_finite, is_positive, positive};
use crate::error::NnError;
use crate::matrix::Matrix;
use crate::parameters::{initialize_parameters, weight_count, OneHiddenLayerNNParameters};
use crate::propagation::layer_sizes;
use vstd::prelude::*;

verus! {

/// A cost is recorded at every iteration whose index is a multiple of this.
pub const REPORT_INTERVAL: usize = 1000;

/// How many costs are recorded in the course of `n` iterations.
pub open spec fn checkpoint_count(n: nat) -> nat {
    ((n + 999) / 1000) as nat
}

/// The recorded history of a run whose iterations had the costs `trace`, in
/// order: the cost of every thousandth iteration, from the first on.
pub open spec fn checkpoints(trace: Seq<u32>) -> Seq<u32> {
    Seq::new(checkpoint_count(trace.len()), |k: int| trace[k * 1000])
}

/// The cost of the last iteration of `trace`, if there was one.
pub open spec fn last_cost(trace: Seq<u32>) -> Option<u32> {
    if trace.len() > 0 {
        Some(trace.last())
    } else {
        None
    }
}

/// The examples, the labels and the draws fit a network with `n_h` hidden
/// units and one output.
pub open spec fn shapes_valid(x: Matrix, y: Matrix, n_h: usize, draws: Seq<u32>) -> bool {
    &&& x.spec_nrows() > 0
    &&& n_h > 0
    &&& y.spec_nrows() == 1
    &&& x.spec_ncols() == y.spec_ncols()
    &&& draws.len() == weight_count(x.spec_nrows(), n_h as nat, 1)
}

/// The iteration count and the learning rate are both positive.
pub open spec fn configuration_valid(num_iterations: i32, learning_rate: u32) -> bool {
    num_iterations > 0 && positive(learning_rate)
}

/// What a completed run hands back.
#[derive(Clone, Debug)]
pub struct TrainingResult {
    /// The parameters after the last update.
    pub parameters: OneHiddenLayerNNParameters,
    /// The recorded costs, oldest first.
    pub costs: Vec<u32>,
}

/// Why and where a run was abandoned.
#[derive(Clone, Copy, Debug, PartialEq, Eq)]
pub struct Abort {
    /// What was wrong with the iteration that was reported.
    pub error: NnError,
    /// How many iterations had completed before, which is also the index of
    /// the iteration that failed.
    pub valid_iterations: usize,
    /// The cost of the last iteration that completed, if there was one.
    pub last_cost: Option<u32>,
}

/// A run that has iterations left to do.
pub struct Trainer {
    n_x: usize,
    n_h: usize,
    num_iterations: usize,
    learning_rate: u32,
    report_cost: bool,
    iteration: usize,
    parameters: OneHiddenLayerNNParameters,
    costs: Vec<u32>,
    previous_cost: Option<u32>,
    trace: Ghost<Seq<u32>>,
}

/// Where a run stands after an iteration was accepted.
pub enum Next {
    /// There are iterations left.
    Continue(Trainer),
    /// That was the last iteration.
    Finished(TrainingResult),
}

/// The outcome of an accepted iteration.
pub struct Step {
    /// The index of the iteration that was accepted.
    pub iteration: usize,
    /// Whether its cost was appended to the history.
    pub recorded: bool,
    /// Whether the caller is to show the cost as progress.
    pub announce: bool,
    /// The run from here on.
    pub next: Next,
}

/// Recording one more cost extends the history by it exactly when the
/// iteration's index is a multiple of the interval; otherwise the history
/// stays as it is.
pub proof fn lemma_checkpoints_push(trace: Seq<u32>, cost: u32)
    ensures
        trace.len() % 1000 == 0 ==> checkpoints(trace.push(cost)) == checkpoints(trace).push(cost),
        trace.len() % 1000 != 0 ==> checkpoints(trace.push(cost)) == checkpoints(trace),
{
    let longer = trace.push(cost);
    let n = trace.len() as int;
    if n % 1000 == 0 {
        assert(checkpoint_count(longer.len()) == checkpoint_count(trace.len()) + 1);
        assert(checkpoint_count(trace.len()) * 1000 == n);
        assert(checkpoints(longer) =~= checkpoints(trace).push(cost));
    } else {
        assert(checkpoint_count(longer.len()) == checkpoint_count(trace.len()));
        assert(checkpoints(longer) =~= checkpoints(trace));
    }
}

/// The history is in the order of the iterations: it has one entry for every
/// multiple of the interval below the number of iterations, and its `k`-th
/// entry is the cost of iteration `1000 * k`.
pub proof fn lemma_checkpoints_chronological(trace: Seq<u32>, k: int)
    requires
        0 <= k < checkpoints(trace).len(),
    ensures
        checkpoints(trace).len() == (trace.len() + 999) / 1000,
        k * 1000 < trace.len(),
        checkpoints(trace)[k] == trace[k * 1000],
{
}

/// What has been recorded stays: the history of a run is the beginning of
/// its history after any further iterations.
pub proof fn lemma_checkpoints_extend(trace: Seq<u32>, more: Seq<u32>)
    ensures
        checkpoints(trace).len() <= checkpoints(trace + more).len(),
        checkpoints(trace + more).subrange(0, checkpoints(trace).len() as int) == checkpoints(
            trace,
        ),
{
    let longer = trace + more;
    assert(longer.len() == trace.len() + more.len());
    assert(checkpoints(longer).subrange(0, checkpoints(trace).len() as int) =~= checkpoints(
        trace,
    ));
}

/// A run without iterations has an empty history.
pub proof fn lemma_checkpoints_empty()
    ensures
        checkpoints(Seq::<u32>::empty()) == Seq::<u32>::empty(),
{
    assert(checkpoints(Seq::<u32>::empty()) =~= Seq::<u32>::empty());
}

impl Trainer {
    #[verifier::type_invariant]
    closed spec fn inv(&self) -> bool {
        &&& self.iteration < self.num_iterations
        &&& self.num_iterations <= i32::MAX
        &&& self.trace@.len() == self.iteration
        &&& self.costs@ == checkpoints(self.trace@)
        &&& self.previous_cost == last_cost(self.trace@)
        &&& self.parameters.wf(self.n_x as nat, self.n_h as nat, 1)
        &&& self.n_x > 0
        &&& self.n_h > 0
        &&& positive(self.learning_rate)
    }

    /// The index of the iteration that is due, which is the number of
    /// iterations accepted so far.
    pub closed spec fn spec_iteration(&self) -> nat {
        self.iteration as nat
    }

    /// The number of iterations of the whole run.
    pub closed spec fn spec_num_iterations(&self) -> nat {
        self.num_iterations as nat
    }

    /// The learning rate.
    pub closed spec fn spec_learning_rate(&self) -> u32 {
        self.learning_rate
    }

    /// Whether recorded costs are to be shown as progress.
    pub closed spec fn spec_report_cost(&self) -> bool {
        self.report_cost
    }

    /// The sizes of the input layer and of the hidden layer.
    pub closed spec fn spec_sizes(&self) -> (nat, nat) {
        (self.n_x as nat, self.n_h as nat)
    }

    /// The current parameters.
    pub closed spec fn spec_parameters(&self) -> OneHiddenLayerNNParameters {
        self.parameters
    }

    /// The costs of all iterations accepted so far, in order.
    pub closed spec fn spec_trace(&self) -> Seq<u32> {
        self.trace@
    }

    /// The recorded history.
    pub closed spec fn spec_costs(&self) -> Seq<u32> {
        self.costs@
    }

    /// `other` is a run with the same sizes, iteration count, learning rate
    /// and reporting choice.
    pub open spec fn same_run(&self, other: Trainer) -> bool {
        &&& self.spec_sizes() == other.spec_sizes()
        &&& self.spec_num_iterations() == other.spec_num_iterations()
        &&& self.spec_learning_rate() == other.spec_learning_rate()
        &&& self.spec_report_cost() == other.spec_report_cost()
    }

    /// The index of the iteration that is due.
    pub fn iteration(&self) -> (i: usize)
        ensures
            i == self.spec_iteration(),
            i < self.spec_num_iterations(),
            self.spec_trace().len() == i,
    {
        proof {
            use_type_invariant(self);
        }
        self.iteration
    }

    /// The number of iterations of the whole run.
    pub fn num_iterations(&self) -> (n: usize)
        ensures
            n == self.spec_num_iterations(),
            n > 0,
    {
        proof {
            use_type_invariant(self);
        }
        self.num_iterations
    }

    /// The learning rate, which is positive.
    pub fn learning_rate(&self) -> (rate: u32)
        ensures
            rate == self.spec_learning_rate(),
            positive(rate),
    {
        proof {
            use_type_invariant(self);
        }
        self.learning_rate
    }

    /// The parameters that the iteration that is due starts from.
    pub fn parameters(&self) -> (p: &OneHiddenLayerNNParameters)
        ensures
            *p == self.spec_parameters(),
            p.wf(self.spec_sizes().0, self.spec_sizes().1, 1),
    {
        proof {
            use_type_invariant(self);
        }
        &self.parameters
    }

    /// The costs recorded so far, oldest first.
    pub fn costs(&self) -> (history: &Vec<u32>)
        ensures
            history@ == self.spec_costs(),
            history@ == checkpoints(self.spec_trace()),
    {
        proof {
            use_type_invariant(self);
        }
        &self.costs
    }

    /// Takes in the iteration that was due: its cost, and the parameters
    /// after its update.
    ///
    /// The iteration is accepted when the cost is finite and the updated
    /// parameters have the run's shapes and are finite throughout. Its cost is
    /// recorded when its index is a multiple of the interval, and is to be
    /// shown when the run reports costs. The run is finished when that was its
    /// last iteration. Otherwise the run is abandoned, with the number of
    /// iterations that had completed and the cost of the last of them: for a
    /// cost that is not finite as `NumericalInstability`, else for a shape
    /// that differs as `InvalidShape`, else for an entry that is not finite as
    /// `NumericalInstability`.
    pub fn advance(self, cost: u32, updated: OneHiddenLayerNNParameters) -> (r: Result<Step, Abort>)
        ensures
            r.is_ok() <==> finite(cost) && updated.wf(self.spec_sizes().0, self.spec_sizes().1, 1)
                && updated.all_finite(),
            r matches Err(abort) ==> {
                &&& abort.valid_iterations == self.spec_iteration()
                &&& abort.last_cost == last_cost(self.spec_trace())
                &&& abort.error == (if !finite(cost) {
                    NnError::NumericalInstability
                } else if !updated.wf(self.spec_sizes().0, self.spec_sizes().1, 1) {
                    NnError::InvalidShape
                } else {
                    NnError::NumericalInstability
                })
            },
            r matches Ok(step) ==> {
                &&& step.iteration == self.spec_iteration()
                &&& step.recorded == (self.spec_iteration() % 1000 == 0)
                &&& step.announce == (step.recorded && self.spec_report_cost())
                &&& match step.next {
                    Next::Continue(run) => {
                        &&& self.spec_iteration() + 1 < self.spec_num_iterations()
                        &&& run.spec_iteration() == self.spec_iteration() + 1
                        &&& run.spec_trace() == self.spec_trace().push(cost)
                        &&& run.spec_costs() == checkpoints(run.spec_trace())
                        &&& run.spec_parameters() == updated
                        &&& run.same_run(self)
                    },
                    Next::Finished(result) => {
                        &&& self.spec_iteration() + 1 == self.spec_num_iterations()
                        &&& result.costs@ == checkpoints(self.spec_trace().push(cost))
                        &&& result.parameters == updated
                    },
                }
            },
    {
        proof {
            use_type_invariant(&self);
        }
        let Trainer {
            n_x,
            n_h,
            num_iterations,
            learning_rate,
            report_cost,
            iteration,
            parameters: _,
            costs,
            previous_cost,
            trace,
        } = self;
        if !is_finite(cost) {
            return Err(
                Abort {
                    error: NnError::NumericalInstability,
                    valid_iterations: iteration,
                    last_cost: previous_cost,
                },
            );
        }
        if !updated.has_sizes(n_x, n_h, 1) {
            return Err(
                Abort {
                    error: NnError::InvalidShape,
                    valid_iterations: iteration,
                    last_cost: previous_cost,
                },
            );
        }
        if !updated.is_all_finite() {
            return Err(
                Abort {
                    error: NnError::NumericalInstability,
                    valid_iterations: iteration,
                    last_cost: previous_cost,
                },
            );
        }
        let recorded = iteration % REPORT_INTERVAL == 0;
        let mut costs = costs;
        if recorded {
            costs.push(cost);
        }
        proof {
            lemma_checkpoints_push(trace@, cost);
        }
        let announce = recorded && report_cost;
        let done: usize = iteration + 1;
        let next = if done == num_iterations {
            Next::Finished(TrainingResult { parameters: updated, costs })
        } else {
            Next::Continue(
                Trainer {
                    n_x,
                    n_h,
                    num_iterations,
                    learning_rate,
                    report_cost,
                    iteration: done,
                    parameters: updated,
                    costs,
                    previous_cost: Some(cost),
                    trace: Ghost(trace@.push(cost)),
                },
            )
        };
        Ok(Step { iteration, recorded, announce, next })
    }
}

/// Begins a training run on the examples `x`, one column each, and their
/// labels `y`, with `n_h` hidden units.
///
/// The shapes are checked first: `x` must have at least one row, `y` exactly
/// one, both the same number of columns, `n_h` must not be zero, and `draws`
/// must hold one value for each weight; else the run is refused as
/// `InvalidShape`. Then `num_iterations` and `learning_rate` must be
/// positive; else it is refused as `InvalidConfiguration`. The run starts
/// before its first iteration, with the initial parameters made from `draws`
/// and an empty history.
pub fn nn_model(
    x: &Matrix,
    y: &Matrix,
    n_h: usize,
    num_iterations: i32,
    learning_rate: u32,
    print_cost: bool,
    draws: &Vec<u32>,
) -> (r: Result<Trainer, NnError>)
    ensures
        r.is_ok() <==> shapes_valid(*x, *y, n_h, draws@) && configuration_valid(
            num_iterations,
            learning_rate,
        ),
        r matches Err(e) ==> e == (if shapes_valid(*x, *y, n_h, draws@) {
            NnError::InvalidConfiguration
        } else {
            NnError::InvalidShape
        }),
        r matches Ok(run) ==> {
            &&& run.spec_iteration() == 0
            &&& run.spec_num_iterations() == num_iterations
            &&& run.spec_learning_rate() == learning_rate
            &&& run.spec_report_cost() == print_cost
            &&& run.spec_sizes() == (x.spec_nrows(), n_h as nat)
            &&& run.spec_trace() == Seq::<u32>::empty()
            &&& run.spec_costs() == Seq::<u32>::empty()
            &&& run.spec_parameters().is_initial(x.spec_nrows(), n_h as nat, 1, draws@)
        },
{
    if x.ncols() != y.ncols() {
        return Err(NnError::InvalidShape);
    }
    let (n_x, n_y) = layer_sizes(x.clone(), y.clone());
    if n_y != 1 {
        return Err(NnError::InvalidShape);
    }
    let parameters = match initialize_parameters(n_x, n_h, n_y, draws) {
        Ok(parameters) => parameters,
        Err(_) => {
            return Err(NnError::InvalidShape);
        },
    };
    if num_iterations <= 0 || !is_positive(learning_rate) {
        return Err(NnError::InvalidConfiguration);
    }
    proof {
        lemma_checkpoints_empty();
    }
    Ok(
        Trainer {
            n_x,
            n_h,
            num_iterations: num_iterations as usize,
            learning_rate,
            report_cost: print_cost,
            iteration: 0,
            parameters,
            costs: Vec::new(),
            previous_cost: None,
            trace: Ghost(Seq::empty()),
        },
    )
}

} // verus!
