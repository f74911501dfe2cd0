//! The learnable arrays of the network and their initial values.

use crate::error::NnError;
use crate::matrix::{vec_to_array2, Matrix};
use vstd::prelude::*;

verus! {

/// The four learnable arrays of a network with one hidden layer.
#[derive(Clone, Debug)]
pub struct OneHiddenLayerNNParameters {
    /// Hidden-layer weights, one row for each hidden unit.
    pub w1: Matrix,
    /// Hidden-layer bias, a column.
    pub b1: Matrix,
    /// Output-layer weights, one row for each output.
    pub w2: Matrix,
    /// Output-layer bias, a column.
    pub b2: Matrix,
}

impl OneHiddenLayerNNParameters {
    /// The arrays have the shapes of a network with `n_x` inputs, `n_h` hidden
    /// units and `n_y` outputs.
    pub open spec fn wf(&self, n_x: nat, n_h: nat, n_y: nat) -> bool {
        &&& self.w1.has_shape(n_h, n_x)
        &&& self.b1.has_shape(n_h, 1)
        &&& self.w2.has_shape(n_y, n_h)
        &&& self.b2.has_shape(n_y, 1)
    }

    /// No entry of any of the four arrays is an infinity or a not-a-number.
    pub open spec fn all_finite(&self) -> bool {
        &&& self.w1.all_finite()
        &&& self.b1.all_finite()
        &&& self.w2.all_finite()
        &&& self.b2.all_finite()
    }

    /// The arrays are those that a network of the given sizes starts from:
    /// the weights are `draws`, the hidden layer's first and each array row
    /// by row, and both biases are zero.
    pub open spec fn is_initial(&self, n_x: nat, n_h: nat, n_y: nat, draws: Seq<u32>) -> bool {
        &&& self.wf(n_x, n_h, n_y)
        &&& self.b1.all_zero()
        &&& self.b2.all_zero()
        &&& forall|i: int, j: int|
            0 <= i < n_h && 0 <= j < n_x ==> #[trigger] self.w1@[i][j] == draw_at(
                draws,
                0,
                n_x as int,
                i,
                j,
            )
        &&& forall|i: int, j: int|
            0 <= i < n_y && 0 <= j < n_h ==> #[trigger] self.w2@[i][j] == draw_at(
                draws,
                (n_h * n_x) as int,
                n_h as int,
                i,
                j,
            )
    }

    /// Whether the arrays have the shapes of a network of the given sizes.
    pub fn has_sizes(&self, n_x: usize, n_h: usize, n_y: usize) -> (r: bool)
        ensures
            r == self.wf(n_x as nat, n_h as nat, n_y as nat),
    {
        let w1 = self.w1.shape();
        let b1 = self.b1.shape();
        let w2 = self.w2.shape();
        let b2 = self.b2.shape();
        w1.rows == n_h && w1.cols == n_x && b1.rows == n_h && b1.cols == 1 && w2.rows == n_y
            && w2.cols == n_h && b2.rows == n_y && b2.cols == 1
    }

    /// Whether no entry of any array is an infinity or a not-a-number.
    pub fn is_all_finite(&self) -> (r: bool)
        ensures
            r == self.all_finite(),
    {
        self.w1.is_all_finite() && self.b1.is_all_finite() && self.w2.is_all_finite()
            && self.b2.is_all_finite()
    }
}

/// How many weights a network of the given sizes has.
pub open spec fn weight_count(n_x: nat, n_h: nat, n_y: nat) -> nat {
    n_h * n_x + n_y * n_h
}

/// The draw that becomes the weight at row `i` and column `j` of an array with
/// `cols` columns whose entries start at `offset`, rows one after another.
pub open spec fn draw_at(draws: Seq<u32>, offset: int, cols: int, i: int, j: int) -> u32 {
    draws[offset + i * cols + j]
}

proof fn lemma_row_bounds(i: int, rows: int, cols: int)
    requires
        0 <= i < rows,
        0 <= cols,
    ensures
        (i + 1) * cols == i * cols + cols,
        0 <= i * cols,
        (i + 1) * cols <= rows * cols,
{
    assert((i + 1) * cols == i * cols + cols) by (nonlinear_arith);
    assert(0 <= i * cols) by (nonlinear_arith)
        requires
            0 <= i,
            0 <= cols,
    ;
    assert((i + 1) * cols <= rows * cols) by (nonlinear_arith)
        requires
            i + 1 <= rows,
            0 <= cols,
    ;
}

/// Cuts `rows` rows of `cols` entries each out of `draws`, from `offset` on.
fn rows_from(draws: &Vec<u32>, offset: usize, rows: usize, cols: usize) -> (out: Vec<Vec<u32>>)
    requires
        offset + rows * cols <= draws@.len(),
    ensures
        out@.len() == rows,
        forall|i: int| 0 <= i < rows ==> (#[trigger] out@[i])@.len() == cols,
        forall|i: int, j: int|
            0 <= i < rows && 0 <= j < cols ==> #[trigger] out@[i]@[j] == draw_at(
                draws@,
                offset as int,
                cols as int,
                i,
                j,
            ),
{
    let available = draws.len();
    let mut out: Vec<Vec<u32>> = Vec::new();
    let mut i: usize = 0;
    let mut start: usize = offset;
    while i < rows
        invariant
            available == draws@.len(),
            offset + rows * cols <= draws@.len(),
            i <= rows,
            start == offset + i * cols,
            out@.len() == i,
            forall|k: int| 0 <= k < i ==> (#[trigger] out@[k])@.len() == cols,
            forall|k: int, j: int|
                0 <= k < i && 0 <= j < cols ==> #[trigger] out@[k]@[j] == draw_at(
                    draws@,
                    offset as int,
                    cols as int,
                    k,
                    j,
                ),
        decreases rows - i,
    {
        proof {
            lemma_row_bounds(i as int, rows as int, cols as int);
        }
        let mut row: Vec<u32> = Vec::new();
        let mut j: usize = 0;
        while j < cols
            invariant
                available == draws@.len(),
                start + cols <= draws@.len(),
                start == offset + i * cols,
                j <= cols,
                row@.len() == j,
                forall|k: int|
                    0 <= k < j ==> #[trigger] row@[k] == draw_at(
                        draws@,
                        offset as int,
                        cols as int,
                        i as int,
                        k,
                    ),
            decreases cols - j,
        {
            row.push(draws[start + j]);
            j += 1;
        }
        out.push(row);
        start = start + cols;
        i += 1;
    }
    out
}

/// Builds the initial parameters of a network with `n_x` inputs, `n_h` hidden
/// units and `n_y` outputs.
///
/// The weights are taken from `draws`, which the caller has sampled and scaled
/// to small magnitudes: first the hidden layer's, row by row, then the output
/// layer's. Both biases start at zero. A size of zero, or a number of draws
/// other than the number of weights, is refused as `InvalidShape`.
pub fn initialize_parameters(n_x: usize, n_h: usize, n_y: usize, draws: &Vec<u32>) -> (r: Result<
    OneHiddenLayerNNParameters,
    NnError,
>)
    ensures
        r.is_ok() <==> n_x > 0 && n_h > 0 && n_y > 0 && draws@.len() == weight_count(
            n_x as nat,
            n_h as nat,
            n_y as nat,
        ),
        r matches Err(e) ==> e == NnError::InvalidShape,
        r matches Ok(p) ==> p.is_initial(n_x as nat, n_h as nat, n_y as nat, draws@),
{
    if n_x == 0 || n_h == 0 || n_y == 0 {
        return Err(NnError::InvalidShape);
    }
    let available = draws.len();
    proof {
        assert(0 <= n_h * n_x) by (nonlinear_arith);
        assert(0 <= n_y * n_h) by (nonlinear_arith);
    }
    let hidden = match n_h.checked_mul(n_x) {
        Some(count) => count,
        None => {
            return Err(NnError::InvalidShape);
        },
    };
    let output = match n_y.checked_mul(n_h) {
        Some(count) => count,
        None => {
            return Err(NnError::InvalidShape);
        },
    };
    let total = match hidden.checked_add(output) {
        Some(count) => count,
        None => {
            return Err(NnError::InvalidShape);
        },
    };
    if available != total {
        return Err(NnError::InvalidShape);
    }
    let w1 = vec_to_array2(rows_from(draws, 0, n_h, n_x));
    let w2 = vec_to_array2(rows_from(draws, hidden, n_y, n_h));
    let b1 = Matrix::zeros(n_h, 1);
    let b2 = Matrix::zeros(n_y, 1);
    Ok(OneHiddenLayerNNParameters { w1, b1, w2, b2 })
}

} // verus!
