//! Laws that relate the operations to one another.

use vstd::prelude::*;
use vstd::std_specs::cmp::PartialEqSpec;
use vstd::std_specs::ops::AddSpec;
use vstd::std_specs::ops::MulSpec;
use vstd::std_specs::ops::NegSpec;
use std::ops::Add;
use std::ops::Mul;
use std::ops::Neg;
use crate::algebra::negation_cancels;
use crate::algebra::one_is_neutral;
use crate::algebra::zero_is_neutral;
use crate::dot::dot_prefix_req;
use crate::dot::dot_prefix_spec;
use crate::dot::dot_req;
use crate::dot::dot_spec;
use crate::grid::Grid;
use crate::grid::lemma_cell_position;
use crate::grid::lemma_row_range;
use crate::identities::One;
use crate::identities::Zero;
use crate::matrix::Axis;
use crate::matrix::Matrix;
use crate::sparse::Csr;
use crate::sparse::lemma_nonzero_positions;
use crate::sparse::lemma_of_wf;
use crate::sparse::nonzero_positions;

verus! {

/// Transposing twice gives the grid back.
pub proof fn lemma_transpose_involution<T>(m: Grid<T>)
    requires
        m.wf(),
    ensures
        m.transposed().transposed() == m,
{
    let t = m.transposed();
    m.lemma_transposed();
    t.lemma_transposed();
    t.transposed().lemma_equal_by_cells(m);
}

/// Transposing turns the one concatenation into the other: the transpose of
/// two grids stacked is the transposes of the two, joined.
pub proof fn lemma_transpose_of_stacked<T>(a: Grid<T>, b: Grid<T>)
    requires
        a.wf(),
        b.wf(),
        a.cols == b.cols,
    ensures
        a.stacked(b).transposed() == a.transposed().joined(b.transposed()),
{
    let s = a.stacked(b);
    a.lemma_stacked(b);
    a.lemma_transposed();
    b.lemma_transposed();
    s.lemma_transposed();
    a.transposed().lemma_joined(b.transposed());
    let left = s.transposed();
    let right = a.transposed().joined(b.transposed());
    assert forall|r: int, c: int| 0 <= r < left.rows && 0 <= c < left.cols implies left.at(r, c)
        == right.at(r, c) by {
        assert(left.at(r, c) == s.at(c, r));
        if c < a.rows {
            assert(a.transposed().at(r, c) == a.at(c, r));
        } else {
            assert(b.transposed().at(r, c - a.rows) == b.at(c - a.rows, r));
        }
    }
    left.lemma_equal_by_cells(right);
}

/// The columns of the transpose are the rows of the grid.
pub proof fn lemma_transposed_col<T>(m: Grid<T>, r: int)
    requires
        m.wf(),
        0 <= r < m.rows,
    ensures
        m.transposed().col(r) == m.row(r),
{
    let t = m.transposed();
    m.lemma_transposed();
    lemma_transpose_involution(m);
    t.lemma_transposed_row(r);
}

/// The sums of the rows of a grid are the sums of the columns of its
/// transpose: summing the transpose along the columns gives the row of the
/// values that summing the grid along the rows gives as a column, and the one
/// can be computed exactly when the other can.
pub proof fn lemma_row_sums_are_column_sums_of_transpose<T: Zero + Add<Output = T>>(m: Grid<T>)
    requires
        m.wf(),
    ensures
        m.transposed().can_summed(Some(Axis::COLUMN)) == m.can_summed(Some(Axis::ROW)),
        m.transposed().summed(Some(Axis::COLUMN)) == m.summed(Some(Axis::ROW)).reshaped(1, m.rows),
{
    let t = m.transposed();
    m.lemma_transposed();
    assert forall|k: int| 0 <= k < m.rows implies #[trigger] t.lane(Some(Axis::COLUMN), k)
        == m.lane(Some(Axis::ROW), k) by {
        lemma_transposed_col(m, k);
    }
    assert(t.summed(Some(Axis::COLUMN)).cells =~= m.summed(Some(Axis::ROW)).cells);
    if m.can_summed(Some(Axis::ROW)) {
        assert forall|k: int| 0 <= k < t.reduced_len(Some(Axis::COLUMN)) implies crate::ops::sum::sum_req(
            #[trigger] t.lane(Some(Axis::COLUMN), k),
        ) by {
            assert(t.lane(Some(Axis::COLUMN), k) == m.lane(Some(Axis::ROW), k));
        }
    }
    if t.can_summed(Some(Axis::COLUMN)) {
        assert forall|k: int| 0 <= k < m.reduced_len(Some(Axis::ROW)) implies crate::ops::sum::sum_req(
            #[trigger] m.lane(Some(Axis::ROW), k),
        ) by {
            assert(t.lane(Some(Axis::COLUMN), k) == m.lane(Some(Axis::ROW), k));
        }
    }
}

/// A grid plus its negation is the grid of zeros of the same shape, for an
/// element type in which a value and its negation cancel.
pub proof fn lemma_add_negation<T: Zero + Add<Output = T> + Neg<Output = T>>(m: Grid<T>)
    requires
        m.wf(),
        m.can_negated(),
        negation_cancels::<T>(),
    ensures
        m.can_plus(m.negated()),
        m.plus(m.negated()) == Grid::<T>::zeros(m.rows, m.cols),
{
    let n = m.negated();
    assert forall|i: int| 0 <= i < m.cells.len() implies (#[trigger] m.cells[i]).add_req(
        n.cells[i],
    ) && m.cells[i].add_spec(n.cells[i]) == T::zero_spec() by {
        assert(m.cells[i].neg_req());
        assert(n.cells[i] == m.cells[i].neg_spec());
    }
    assert(m.plus(n).cells =~= Grid::<T>::zeros(m.rows, m.cols).cells);
}

/// The dot product of `a` with a sequence that holds one at position `j`
/// and zero elsewhere can be computed, and is `a[j]` once position `j` has
/// been passed.
pub proof fn lemma_dot_unit_right<T: Zero + One + Add<Output = T> + Mul<Output = T>>(
    a: Seq<T>,
    e: Seq<T>,
    j: int,
    n: nat,
)
    requires
        zero_is_neutral::<T>(),
        one_is_neutral::<T>(),
        n <= a.len(),
        a.len() == e.len(),
        forall|k: int|
            0 <= k < e.len() ==> #[trigger] e[k] == if k == j {
                T::one_spec()
            } else {
                T::zero_spec()
            },
    ensures
        dot_prefix_req(a, e, n),
        dot_prefix_spec(a, e, n) == if 0 <= j < n {
            a[j]
        } else {
            T::zero_spec()
        },
    decreases n,
{
    if n > 0 {
        lemma_dot_unit_right(a, e, j, (n - 1) as nat);
        let acc = dot_prefix_spec(a, e, (n - 1) as nat);
        let x = a[n - 1];
        if n - 1 == j {
            assert(e[n - 1] == T::one_spec());
            assert(x.mul_req(T::one_spec()) && x.mul_spec(T::one_spec()) == x);
            assert(acc == T::zero_spec());
            assert(T::zero_spec().add_req(x) && T::zero_spec().add_spec(x) == x);
        } else {
            assert(e[n - 1] == T::zero_spec());
            assert(x.mul_req(T::zero_spec()) && x.mul_spec(T::zero_spec()) == T::zero_spec());
            assert(acc.add_req(T::zero_spec()) && acc.add_spec(T::zero_spec()) == acc);
        }
    }
}

/// The dot product of a sequence that holds one at position `j` and zero
/// elsewhere with `b` can be computed, and is `b[j]` once position `j` has
/// been passed.
pub proof fn lemma_dot_unit_left<T: Zero + One + Add<Output = T> + Mul<Output = T>>(
    e: Seq<T>,
    b: Seq<T>,
    j: int,
    n: nat,
)
    requires
        zero_is_neutral::<T>(),
        one_is_neutral::<T>(),
        n <= b.len(),
        b.len() == e.len(),
        forall|k: int|
            0 <= k < e.len() ==> #[trigger] e[k] == if k == j {
                T::one_spec()
            } else {
                T::zero_spec()
            },
    ensures
        dot_prefix_req(e, b, n),
        dot_prefix_spec(e, b, n) == if 0 <= j < n {
            b[j]
        } else {
            T::zero_spec()
        },
    decreases n,
{
    if n > 0 {
        lemma_dot_unit_left(e, b, j, (n - 1) as nat);
        let acc = dot_prefix_spec(e, b, (n - 1) as nat);
        let x = b[n - 1];
        if n - 1 == j {
            assert(e[n - 1] == T::one_spec());
            assert(T::one_spec().mul_req(x) && T::one_spec().mul_spec(x) == x);
            assert(acc == T::zero_spec());
            assert(T::zero_spec().add_req(x) && T::zero_spec().add_spec(x) == x);
        } else {
            assert(e[n - 1] == T::zero_spec());
            assert(T::zero_spec().mul_req(x) && T::zero_spec().mul_spec(x) == T::zero_spec());
            assert(acc.add_req(T::zero_spec()) && acc.add_spec(T::zero_spec()) == acc);
        }
    }
}

/// The identity grid is well formed; its rows and its columns hold one at
/// their own position and zero elsewhere.
pub proof fn lemma_identity<T: Zero + One>(dim: nat)
    requires
        dim > 0,
    ensures
        Grid::<T>::identity(dim).wf(),
        Grid::<T>::identity(dim).rows == dim,
        Grid::<T>::identity(dim).cols == dim,
        forall|r: int, c: int|
            0 <= r < dim && 0 <= c < dim ==> #[trigger] Grid::<T>::identity(dim).at(r, c) == if r
                == c {
                T::one_spec()
            } else {
                T::zero_spec()
            },
        forall|r: int, k: int|
            0 <= r < dim && 0 <= k < dim ==> #[trigger] Grid::<T>::identity(dim).row(r)[k] == if k
                == r {
                T::one_spec()
            } else {
                T::zero_spec()
            },
        forall|c: int, k: int|
            0 <= c < dim && 0 <= k < dim ==> #[trigger] Grid::<T>::identity(dim).col(c)[k] == if k
                == c {
                T::one_spec()
            } else {
                T::zero_spec()
            },
        forall|r: int| 0 <= r < dim ==> (#[trigger] Grid::<T>::identity(dim).row(r)).len() == dim,
{
    let id = Grid::<T>::identity(dim);
    Grid::lemma_tabulate(
        dim,
        dim,
        |r: int, c: int|
            if r == c {
                T::one_spec()
            } else {
                T::zero_spec()
            },
    );
    assert forall|r: int, k: int| 0 <= r < dim && 0 <= k < dim implies #[trigger] id.row(r)[k]
        == if k == r {
        T::one_spec()
    } else {
        T::zero_spec()
    } by {
        lemma_row_range(dim, dim, r);
        lemma_cell_position(dim, dim, r, k);
        assert(id.row(r)[k] == id.at(r, k));
    }
    assert forall|c: int, k: int| 0 <= c < dim && 0 <= k < dim implies #[trigger] id.col(c)[k]
        == if k == c {
        T::one_spec()
    } else {
        T::zero_spec()
    } by {
        assert(id.col(c)[k] == id.at(k, c));
    }
    assert forall|r: int| 0 <= r < dim implies (#[trigger] id.row(r)).len() == dim by {
        lemma_row_range(dim, dim, r);
    }
}

/// A grid times the identity grid with as many rows as the grid has columns
/// can be computed and is the grid itself, for an element type with a neutral
/// zero and a neutral one.
pub proof fn lemma_mul_identity_right<T: Zero + One + Add<Output = T> + Mul<Output = T>>(
    m: Grid<T>,
)
    requires
        m.wf(),
        zero_is_neutral::<T>(),
        one_is_neutral::<T>(),
    ensures
        m.can_times(Grid::identity(m.cols)),
        m.times(Grid::identity(m.cols)) == m,
{
    let id = Grid::<T>::identity(m.cols);
    lemma_identity::<T>(m.cols);
    let p = m.times(id);
    if m.is_scalar() {
        assert(id.cells.len() == 1);
        assert(id.cells[0] == id.at(0, 0));
        assert(p.cells =~= m.cells);
    } else if id.is_scalar() {
        assert(id.cells[0] == id.at(0, 0));
        assert(p.cells =~= m.cells);
    } else {
        assert(m.cols > 1);
        assert forall|r: int, c: int| 0 <= r < m.rows && 0 <= c < id.cols implies dot_req(
            #[trigger] m.row(r),
            #[trigger] id.col(c),
        ) && dot_spec(m.row(r), id.col(c)) == m.at(r, c) by {
            lemma_row_range(m.rows, m.cols, r);
            lemma_dot_unit_right(m.row(r), id.col(c), c, m.cols);
            assert(m.row(r)[c] == m.at(r, c));
        }
        Grid::lemma_tabulate(m.rows, id.cols, |r: int, c: int| dot_spec(m.row(r), id.col(c)));
        p.lemma_equal_by_cells(m);
    }
}

/// The identity grid with as many columns as the grid has rows, times the
/// grid, can be computed and is the grid itself, for an element type with a
/// neutral zero and a neutral one.
pub proof fn lemma_mul_identity_left<T: Zero + One + Add<Output = T> + Mul<Output = T>>(
    m: Grid<T>,
)
    requires
        m.wf(),
        zero_is_neutral::<T>(),
        one_is_neutral::<T>(),
    ensures
        Grid::identity(m.rows).can_times(m),
        Grid::identity(m.rows).times(m) == m,
{
    let id = Grid::<T>::identity(m.rows);
    lemma_identity::<T>(m.rows);
    let p = id.times(m);
    if id.is_scalar() {
        assert(id.cells[0] == id.at(0, 0));
        assert(p.cells =~= m.cells);
    } else {
        assert(m.rows > 1);
        assert(!m.is_scalar());
        assert forall|r: int, c: int| 0 <= r < id.rows && 0 <= c < m.cols implies dot_req(
            #[trigger] id.row(r),
            #[trigger] m.col(c),
        ) && dot_spec(id.row(r), m.col(c)) == m.at(r, c) by {
            lemma_dot_unit_left(id.row(r), m.col(c), r, m.rows);
            assert(m.col(c)[r] == m.at(r, c));
        }
        Grid::lemma_tabulate(id.rows, m.cols, |r: int, c: int| dot_spec(id.row(r), m.col(c)));
        p.lemma_equal_by_cells(m);
    }
}

/// The product of a column and a row, which multiplies once for each cell
/// and adds nothing, agrees with the general product for an element type with
/// a neutral zero: each of its cells is the dot product of a row of one value
/// and a column of one value.
pub proof fn lemma_outer_product_is_dot<T: Zero + Add<Output = T> + Mul<Output = T>>(
    a: Grid<T>,
    b: Grid<T>,
    r: int,
    c: int,
)
    requires
        a.wf(),
        b.wf(),
        a.cols == 1,
        b.rows == 1,
        zero_is_neutral::<T>(),
        0 <= r < a.rows,
        0 <= c < b.cols,
        a.cells[r].mul_req(b.cells[c]),
    ensures
        dot_req(a.row(r), b.col(c)),
        dot_spec(a.row(r), b.col(c)) == a.cells[r].mul_spec(b.cells[c]),
{
    lemma_row_range(a.rows, a.cols, r);
    lemma_cell_position(a.rows, a.cols, r, 0);
    lemma_cell_position(b.rows, b.cols, 0, c);
    let x = a.row(r);
    let y = b.col(c);
    assert(x.len() == 1 && y.len() == 1);
    assert(x[0] == a.cells[r]);
    assert(y[0] == b.at(0, c));
    assert(y[0] == b.cells[c]);
    let p = x[0].mul_spec(y[0]);
    assert(dot_prefix_spec(x, y, 0) == T::zero_spec());
    assert(T::zero_spec().add_req(p) && T::zero_spec().add_spec(p) == p);
    assert(dot_prefix_req(x, y, 0));
    assert(dot_prefix_req(x, y, 1));
    assert(dot_prefix_spec(x, y, 1) == p);
}

/// A lookup that succeeds names a position of the range that holds the
/// column; one that fails shows that no position of the range holds it.
pub proof fn lemma_lookup<T>(s: Csr<T>, lo: int, hi: int, c: int)
    ensures
        match s.lookup(lo, hi, c) {
            Some(n) => lo <= n < hi && s.col_idx[n] == c,
            None => forall|n: int| lo <= n < hi ==> s.col_idx[n] != c,
        },
    decreases hi - lo,
{
    if lo < hi && s.col_idx[hi - 1] != c {
        lemma_lookup(s, lo, hi - 1, c);
    }
}

/// The sparse form of a grid stands for that grid: converting to the sparse
/// form and back gives every cell its value again, the additive identity
/// where nothing was kept.
pub proof fn lemma_sparse_round_trip<T: Zero>(g: Grid<T>)
    requires
        g.wf(),
    ensures
        Csr::of(g).wf(),
        Csr::of(g).dense() == g,
{
    let s = Csr::of(g);
    let total = g.cells.len();
    let kept = nonzero_positions(g.cells, total);
    let w = g.cols as int;
    lemma_of_wf(g);
    Grid::lemma_tabulate(g.rows, g.cols, |r: int, c: int| s.entry(r, c));
    assert forall|r: int, c: int| 0 <= r < g.rows && 0 <= c < g.cols implies s.dense().at(r, c)
        == g.at(r, c) by {
        let p = r * w + c;
        lemma_cell_position(g.rows, g.cols, r, c);
        lemma_row_range(g.rows, g.cols, r);
        let a = (r * w) as nat;
        let b = ((r + 1) * w) as nat;
        let lo = s.row_ptr[r];
        let hi = s.row_ptr[r + 1];
        assert(lo == nonzero_positions(g.cells, a).len());
        assert(hi == nonzero_positions(g.cells, b).len());
        lemma_nonzero_positions(g.cells, a, b);
        lemma_nonzero_positions(g.cells, b, total);
        lemma_nonzero_positions(g.cells, 0, total);
        lemma_lookup(s, lo, hi, c);
        assert forall|n: int| lo <= n < hi implies r * w <= kept[n] < (r + 1) * w
            && #[trigger] s.col_idx[n] == kept[n] - r * w by {
            assert(kept[n] == nonzero_positions(g.cells, b)[n]);
            lemma_cell_position(g.rows, g.cols, r, kept[n] - r * w);
            assert(r * w + (kept[n] - r * w) == kept[n]);
        }
        assert(s.dense().at(r, c) == s.entry(r, c));
        if g.cells[p] != T::zero_spec() {
            let before = nonzero_positions(g.cells, p as nat);
            let n0 = before.len() as int;
            lemma_nonzero_positions(g.cells, a, p as nat);
            lemma_nonzero_positions(g.cells, (p + 1) as nat, b);
            assert(nonzero_positions(g.cells, (p + 1) as nat) == before.push(p));
            assert(nonzero_positions(g.cells, b)[n0] == p);
            assert(lo <= n0 < hi);
            assert(kept[n0] == p);
            assert(s.col_idx[n0] == c);
            match s.lookup(lo, hi, c) {
                Some(n1) => {
                    assert(s.col_idx[n1] == kept[n1] - r * w);
                    assert(kept[n1] == p);
                    assert(s.val[n1] == g.cells[p]);
                },
                None => {
                    assert(false);
                },
            }
        } else {
            match s.lookup(lo, hi, c) {
                Some(n1) => {
                    assert(s.col_idx[n1] == kept[n1] - r * w);
                    assert(kept[n1] == p);
                    assert(g.cells[kept[n1]] != T::zero_spec());
                    assert(false);
                },
                None => {},
            }
        }
    }
    s.dense().lemma_equal_by_cells(g);
}

/// Where the equality of the element type is the equality of values, two
/// well-formed matrices are equal exactly when they have the same content.
pub proof fn lemma_eq_is_same_content<T: PartialEq>(a: Matrix<T>, b: Matrix<T>)
    requires
        a.wf(),
        b.wf(),
        forall|x: T, y: T| #[trigger] x.eq_spec(&y) <==> x == y,
    ensures
        a.eq_spec(&b) <==> (a@ == b@),
{
    if a.eq_spec(&b) {
        assert forall|i: int| 0 <= i < a@.cells.len() implies a@.cells[i] == b@.cells[i] by {
            assert(a@.cells[i].eq_spec(&b@.cells[i]));
        }
        assert(a@.cells =~= b@.cells);
    }
}

} // verus!
