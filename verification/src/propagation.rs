//! Shapes and acceptance of a forward pass.
//!
//! A forward pass produces, for `m` examples, the hidden layer's
//! pre-activations and activations and the output layer's pre-activation and
//! predicted probabilities. The arithmetic is the caller's; what comes out
//! of it is admitted here.

use crate::error::NnError;
use crate::matrix::Matrix;
use crate::parameters::OneHiddenLayerNNParameters;
use vstd::prelude::*;

verus! {

/// What one forward pass leaves behind for the gradient step.
#[derive(Clone, Debug)]
pub struct OneHiddenLayerNNCache {
    /// Hidden-layer pre-activations.
    pub z1: Matrix,
    /// Hidden-layer activations.
    pub a1: Matrix,
    /// Output-layer pre-activations.
    pub z2: Matrix,
    /// Predicted probabilities.
    pub a2: Matrix,
}

impl OneHiddenLayerNNCache {
    /// The arrays have the shapes of a pass over `m` examples through `n_h`
    /// hidden units to one output.
    pub open spec fn wf(&self, n_h: nat, m: nat) -> bool {
        &&& self.z1.has_shape(n_h, m)
        &&& self.a1.has_shape(n_h, m)
        &&& self.z2.has_shape(1, m)
        &&& self.a2.has_shape(1, m)
    }
}

/// The sizes of the input layer and of the output layer: the row counts of
/// the examples and of the labels.
pub fn layer_sizes(x: Matrix, y: Matrix) -> (sizes: (usize, usize))
    ensures
        sizes.0 == x.spec_nrows(),
        sizes.1 == y.spec_nrows(),
{
    (x.nrows(), y.nrows())
}

/// The parameters are those of a network with one output that takes the rows
/// of `x` as inputs, and the four arrays have the shapes that a pass of `x`
/// through it gives.
pub open spec fn pass_fits(
    x: Matrix,
    parameters: OneHiddenLayerNNParameters,
    z1: Matrix,
    a1: Matrix,
    z2: Matrix,
    a2: Matrix,
) -> bool {
    let n_h = parameters.w1.spec_nrows();
    let m = x.spec_ncols();
    &&& parameters.wf(x.spec_nrows(), n_h, 1)
    &&& z1.has_shape(n_h, m)
    &&& a1.has_shape(n_h, m)
    &&& z2.has_shape(1, m)
    &&& a2.has_shape(1, m)
}

/// Admits the outcome of a forward pass of `x` through `parameters`.
///
/// `z1`, `a1`, `z2` and `a2` are what the pass computed. They are handed back
/// as the predicted probabilities and the cache when every shape fits and
/// every probability lies strictly between zero and one. A shape that does
/// not fit is `InvalidShape`; otherwise a probability at or beyond zero or
/// one is `NumericalInstability`.
pub fn forward_propagation(
    x: &Matrix,
    parameters: &OneHiddenLayerNNParameters,
    z1: Matrix,
    a1: Matrix,
    z2: Matrix,
    a2: Matrix,
) -> (r: Result<(Matrix, OneHiddenLayerNNCache), NnError>)
    ensures
        r.is_ok() <==> pass_fits(*x, *parameters, z1, a1, z2, a2) && a2.all_in_open_unit(),
        r matches Err(e) ==> e == (if pass_fits(*x, *parameters, z1, a1, z2, a2) {
            NnError::NumericalInstability
        } else {
            NnError::InvalidShape
        }),
        r matches Ok(out) ==> {
            &&& out.0@ == a2@
            &&& out.0.has_shape(1, x.spec_ncols())
            &&& out.0.all_in_open_unit()
            &&& out.1.wf(parameters.w1.spec_nrows(), x.spec_ncols())
            &&& out.1.z1 == z1
            &&& out.1.a1 == a1
            &&& out.1.z2 == z2
            &&& out.1.a2 == a2
        },
{
    let input = x.shape();
    let n_h = parameters.w1.nrows();
    let m = input.cols;
    let s_z1 = z1.shape();
    let s_a1 = a1.shape();
    let s_z2 = z2.shape();
    let s_a2 = a2.shape();
    let fits = parameters.has_sizes(input.rows, n_h, 1) && s_z1.rows == n_h && s_z1.cols == m
        && s_a1.rows == n_h && s_a1.cols == m && s_z2.rows == 1 && s_z2.cols == m && s_a2.rows
        == 1 && s_a2.cols == m;
    if !fits {
        return Err(NnError::InvalidShape);
    }
    if !a2.is_all_probabilities() {
        return Err(NnError::NumericalInstability);
    }
    let probabilities = a2.duplicate();
    Ok((probabilities, OneHiddenLayerNNCache { z1, a1, z2, a2 }))
}

} // verus!
