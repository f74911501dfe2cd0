//! Two-dimensional arrays of encoded scalars, stored row by row.

use crate::encoding::{finite, in_open_unit, is_finite, is_probability};
use vstd::prelude::*;

verus! {

/// Number of rows and of columns of an array.
#[derive(Clone, Copy, Debug, PartialEq, Eq, Structural)]
pub struct Shape {
    pub rows: usize,
    pub cols: usize,
}

/// A rectangular array of encoded scalars.
///
/// Its view is the sequence of its rows. Every matrix is well formed: its rows
/// have one length, the column count, which is kept apart so that an array
/// without rows still has a width.
#[derive(Debug)]
pub struct Matrix {
    rows: Vec<Vec<u32>>,
    cols: usize,
}

/// The entry of `rows` at row `i` and column `j`, with zero standing in where
/// the row is too short to have one.
pub open spec fn padded_entry(rows: Seq<Vec<u32>>, i: int, j: int) -> u32 {
    if j < rows[i]@.len() {
        rows[i]@[j]
    } else {
        0u32
    }
}

impl Matrix {
    /// The rows, each as a sequence of encoded scalars.
    pub closed spec fn view(&self) -> Seq<Seq<u32>> {
        Seq::new(self.rows@.len(), |i: int| self.rows@[i]@)
    }

    /// The column count.
    pub closed spec fn spec_ncols(&self) -> nat {
        self.cols as nat
    }

    /// The row count.
    pub open spec fn spec_nrows(&self) -> nat {
        self@.len()
    }

    /// Every row is as long as the column count says.
    #[verifier::type_invariant]
    pub open spec fn wf(&self) -> bool {
        forall|i: int| 0 <= i < self@.len() ==> (#[trigger] self@[i]).len() == self.spec_ncols()
    }

    /// The matrix is well formed with exactly `rows` rows and `cols` columns.
    pub open spec fn has_shape(&self, rows: nat, cols: nat) -> bool {
        &&& self.wf()
        &&& self.spec_nrows() == rows
        &&& self.spec_ncols() == cols
    }

    /// Every entry is positive zero.
    pub open spec fn all_zero(&self) -> bool {
        forall|i: int, j: int|
            0 <= i < self@.len() && 0 <= j < self@[i].len() ==> #[trigger] self@[i][j] == 0u32
    }

    /// Every entry is finite.
    pub open spec fn all_finite(&self) -> bool {
        forall|i: int, j: int|
            0 <= i < self@.len() && 0 <= j < self@[i].len() ==> finite(#[trigger] self@[i][j])
    }

    /// Every entry lies strictly between zero and one.
    pub open spec fn all_in_open_unit(&self) -> bool {
        forall|i: int, j: int|
            0 <= i < self@.len() && 0 <= j < self@[i].len() ==> in_open_unit(
                #[trigger] self@[i][j],
            )
    }

    /// An array of the given shape filled with positive zero.
    pub fn zeros(rows: usize, cols: usize) -> (m: Matrix)
        ensures
            m.has_shape(rows as nat, cols as nat),
            m.all_zero(),
    {
        let mut data: Vec<Vec<u32>> = Vec::new();
        let mut i: usize = 0;
        while i < rows
            invariant
                i <= rows,
                data@.len() == i,
                forall|k: int| 0 <= k < i ==> (#[trigger] data@[k])@.len() == cols,
                forall|k: int, j: int|
                    0 <= k < i && 0 <= j < cols ==> #[trigger] data@[k]@[j] == 0u32,
            decreases rows - i,
        {
            let mut row: Vec<u32> = Vec::new();
            let mut j: usize = 0;
            while j < cols
                invariant
                    j <= cols,
                    row@.len() == j,
                    forall|k: int| 0 <= k < j ==> #[trigger] row@[k] == 0u32,
                decreases cols - j,
            {
                row.push(0u32);
                j += 1;
            }
            data.push(row);
            i += 1;
        }
        Matrix { rows: data, cols }
    }

    /// The number of rows.
    pub fn nrows(&self) -> (n: usize)
        ensures
            n == self.spec_nrows(),
    {
        self.rows.len()
    }

    /// The number of columns.
    pub fn ncols(&self) -> (n: usize)
        ensures
            n == self.spec_ncols(),
    {
        self.cols
    }

    /// The shape, rows first.
    pub fn shape(&self) -> (s: Shape)
        ensures
            self.has_shape(s.rows as nat, s.cols as nat),
    {
        proof {
            use_type_invariant(self);
        }
        Shape { rows: self.rows.len(), cols: self.cols }
    }

    /// A second array with the same entries.
    pub fn duplicate(&self) -> (m: Matrix)
        ensures
            m@ == self@,
            m.spec_ncols() == self.spec_ncols(),
            m.wf(),
    {
        proof {
            use_type_invariant(self);
        }
        let mut data: Vec<Vec<u32>> = Vec::new();
        let mut i: usize = 0;
        while i < self.rows.len()
            invariant
                self.wf(),
                i <= self.rows@.len(),
                data@.len() == i,
                forall|k: int| 0 <= k < i ==> (#[trigger] data@[k])@ == self@[k],
            decreases self.rows@.len() - i,
        {
            let source = &self.rows[i];
            let mut row: Vec<u32> = Vec::new();
            let mut j: usize = 0;
            while j < source.len()
                invariant
                    j <= source@.len(),
                    row@ == source@.subrange(0, j as int),
                decreases source@.len() - j,
            {
                row.push(source[j]);
                assert(row@ == source@.subrange(0, j + 1));
                j += 1;
            }
            assert(row@ == source@);
            data.push(row);
            i += 1;
        }
        let m = Matrix { rows: data, cols: self.cols };
        assert(m@ =~= self@);
        m
    }

    /// The entry at row `i` and column `j`, if the array has one there.
    pub fn get(&self, i: usize, j: usize) -> (e: Option<u32>)
        ensures
            self.wf(),
            e.is_some() <==> i < self.spec_nrows() && j < self.spec_ncols(),
            e.is_some() ==> e.unwrap() == self@[i as int][j as int],
    {
        proof {
            use_type_invariant(self);
        }
        if i < self.rows.len() && j < self.cols {
            assert(self@[i as int].len() == self.spec_ncols());
            Some(self.rows[i][j])
        } else {
            None
        }
    }

    /// Whether no entry is an infinity or a not-a-number.
    pub fn is_all_finite(&self) -> (r: bool)
        ensures
            r == self.all_finite(),
    {
        let mut i: usize = 0;
        while i < self.rows.len()
            invariant
                i <= self.rows@.len(),
                forall|k: int, j: int|
                    0 <= k < i && 0 <= j < self@[k].len() ==> finite(#[trigger] self@[k][j]),
            decreases self.rows@.len() - i,
        {
            let row = &self.rows[i];
            let mut j: usize = 0;
            while j < row.len()
                invariant
                    i < self.rows@.len(),
                    row@ == self@[i as int],
                    j <= row@.len(),
                    forall|k: int| 0 <= k < j ==> finite(#[trigger] self@[i as int][k]),
                decreases row@.len() - j,
            {
                if !is_finite(row[j]) {
                    assert(!finite(self@[i as int][j as int]));
                    return false;
                }
                j += 1;
            }
            i += 1;
        }
        true
    }

    /// Whether every entry lies strictly between zero and one.
    pub fn is_all_probabilities(&self) -> (r: bool)
        ensures
            r == self.all_in_open_unit(),
    {
        let mut i: usize = 0;
        while i < self.rows.len()
            invariant
                i <= self.rows@.len(),
                forall|k: int, j: int|
                    0 <= k < i && 0 <= j < self@[k].len() ==> in_open_unit(
                        #[trigger] self@[k][j],
                    ),
            decreases self.rows@.len() - i,
        {
            let row = &self.rows[i];
            let mut j: usize = 0;
            while j < row.len()
                invariant
                    i < self.rows@.len(),
                    row@ == self@[i as int],
                    j <= row@.len(),
                    forall|k: int| 0 <= k < j ==> in_open_unit(#[trigger] self@[i as int][k]),
                decreases row@.len() - j,
            {
                if !is_probability(row[j]) {
                    assert(!in_open_unit(self@[i as int][j as int]));
                    return false;
                }
                j += 1;
            }
            i += 1;
        }
        true
    }
}

impl Clone for Matrix {
    fn clone(&self) -> (m: Self)
        ensures
            m@ == self@,
            m.spec_ncols() == self.spec_ncols(),
            m.wf(),
    {
        self.duplicate()
    }
}

/// Lays nested rows out as a matrix.
///
/// The first row gives the width. A shorter row is filled up with positive
/// zero; no row may be longer than the first, and there must be a first.
pub fn vec_to_array2(vec: Vec<Vec<u32>>) -> (m: Matrix)
    requires
        vec@.len() > 0,
        forall|i: int| 0 <= i < vec@.len() ==> (#[trigger] vec@[i])@.len() <= vec@[0]@.len(),
    ensures
        m.has_shape(vec@.len(), vec@[0]@.len()),
        forall|i: int, j: int|
            0 <= i < vec@.len() && 0 <= j < vec@[0]@.len() ==> #[trigger] m@[i][j] == padded_entry(
                vec@,
                i,
                j,
            ),
{
    let rows = vec.len();
    let cols = vec[0].len();
    let mut data: Vec<Vec<u32>> = Vec::new();
    let mut i: usize = 0;
    while i < rows
        invariant
            rows == vec@.len(),
            cols == vec@[0]@.len(),
            i <= rows,
            data@.len() == i,
            forall|k: int| 0 <= k < i ==> (#[trigger] data@[k])@.len() == cols,
            forall|k: int, j: int|
                0 <= k < i && 0 <= j < cols ==> #[trigger] data@[k]@[j] == padded_entry(
                    vec@,
                    k,
                    j,
                ),
        decreases rows - i,
    {
        let source = &vec[i];
        let mut row: Vec<u32> = Vec::new();
        let mut j: usize = 0;
        while j < cols
            invariant
                i < rows,
                rows == vec@.len(),
                source@ == vec@[i as int]@,
                j <= cols,
                row@.len() == j,
                forall|k: int| 0 <= k < j ==> #[trigger] row@[k] == padded_entry(vec@, i as int, k),
            decreases cols - j,
        {
            if j < source.len() {
                row.push(source[j]);
            } else {
                row.push(0u32);
            }
            j += 1;
        }
        data.push(row);
        i += 1;
    }
    Matrix { rows: data, cols }
}

} // verus!
