//! Matrices as the shaders take them.
use vstd::prelude::*;

verus! {

/// `r` holds the rows of the matrix whose columns are `columns`.
pub open spec fn is_row_layout<S>(r: [[S; 4]; 4], columns: [[S; 4]; 4]) -> bool {
    forall|i: int, j: int| 0 <= i < 4 && 0 <= j < 4 ==> #[trigger] r@[i]@[j] == columns@[j]@[i]
}

/// The rows of a 4x4 matrix given by its columns, as uniform values of the
/// shaders are laid out: entry `[i][j]` of the result is entry `i` of
/// column `j`.
pub fn matrix4_to_raw<S: Copy>(columns: [[S; 4]; 4]) -> (r: [[S; 4]; 4])
    ensures
        is_row_layout(r, columns),
{
    let x = columns[0];
    let y = columns[1];
    let z = columns[2];
    let w = columns[3];
    let r = [[x[0], y[0], z[0], w[0]], [x[1], y[1], z[1], w[1]], [x[2], y[2], z[2], w[2]], [
        x[3],
        y[3],
        z[3],
        w[3],
    ]];
    assert forall|i: int, j: int| 0 <= i < 4 && 0 <= j < 4 implies #[trigger] r@[i]@[j]
        == columns@[j]@[i] by {
        if j == 0 {
            assert(x@ == columns@[0]@);
        } else if j == 1 {
            assert(y@ == columns@[1]@);
        } else if j == 2 {
            assert(z@ == columns@[2]@);
        } else {
            assert(w@ == columns@[3]@);
        }
    }
    r
}

/// Laying out the rows of a matrix and then laying out the rows of the
/// result gives back the columns.
pub proof fn lemma_matrix4_to_raw_twice<S>(columns: [[S; 4]; 4], r: [[S; 4]; 4], t: [[S; 4]; 4])
    requires
        is_row_layout(r, columns),
        is_row_layout(t, r),
    ensures
        t == columns,
{
    assert forall|i: int, j: int| 0 <= i < 4 && 0 <= j < 4 implies #[trigger] t@[i]@[j]
        == columns@[i]@[j] by {
        assert(t@[i]@[j] == r@[j]@[i]);
    }
    assert forall|i: int| 0 <= i < 4 implies #[trigger] t@[i] == columns@[i] by {
        assert(t@[i]@ =~= columns@[i]@);
    }
    assert(t@ =~= columns@);
}

} // verus!
