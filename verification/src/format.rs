//! The text form of a matrix: one line for each row, between two brackets.

use vstd::prelude::*;
use vstd::string::StringExecFns;
use std::fmt::Display;
use crate::grid::lemma_row_range;
use crate::matrix::Matrix;

verus! {

/// The texts of `cells`, one after the other, with one space between two
/// neighbours.
pub open spec fn spaced(cells: Seq<Seq<char>>) -> Seq<char>
    decreases cells.len(),
{
    if cells.len() == 0 {
        Seq::empty()
    } else if cells.len() == 1 {
        cells[0]
    } else {
        spaced(cells.drop_last()) + " "@ + cells.last()
    }
}

/// The line of one row: its cells, spaced, between ` [ ` and ` ]`, and
/// the end of the line.
pub open spec fn row_text(cells: Seq<Seq<char>>) -> Seq<char> {
    " [ "@ + spaced(cells) + " ]\n"@
}

/// The lines of the first `n` rows of a grid of texts with `cols` columns.
pub open spec fn rows_text(texts: Seq<Seq<char>>, cols: nat, n: nat) -> Seq<char>
    decreases n,
{
    if n == 0 {
        Seq::empty()
    } else {
        rows_text(texts, cols, (n - 1) as nat) + row_text(
            texts.subrange((n - 1) * cols, (n - 1) * cols + cols),
        )
    }
}

/// The text of a grid of `rows` by `cols` texts: an opening bracket on a
/// line of its own, the line of each row, and a closing bracket.
pub open spec fn grid_text(texts: Seq<Seq<char>>, rows: nat, cols: nat) -> Seq<char> {
    "[\n"@ + rows_text(texts, cols, rows) + "]"@
}

/// The views of the strings of `texts`.
pub open spec fn views(texts: Seq<String>) -> Seq<Seq<char>> {
    texts.map_values(|t: String| t@)
}

/// Formats `x` with `std::fmt`, by its `Display` with four digits after the
/// point where the type has a fraction. The text depends on the type's own
/// formatter, so nothing is stated of it.
#[verifier::external_body]
fn fixed4<T: Display>(x: &T) -> String {
    format!("{:.4}", x)
}

/// The text of a grid of `rows` by `cols` cells, from the text of each cell
/// in row-major order.
pub fn layout(texts: &Vec<String>, rows: usize, cols: usize) -> (out: String)
    requires
        texts@.len() == rows * cols,
    ensures
        out@ == grid_text(views(texts@), rows as nat, cols as nat),
{
    let ghost cells = views(texts@);
    let n: usize = texts.len();
    let mut out: String = String::new();
    out.append("[\n");
    let mut r: usize = 0;
    while r < rows
        invariant
            cells == views(texts@),
            n == texts@.len(),
            n == rows * cols,
            r <= rows,
            out@ == "[\n"@ + rows_text(cells, cols as nat, r as nat),
        decreases rows - r,
    {
        proof {
            lemma_row_range(rows as nat, cols as nat, r as int);
            assert(0 <= r * cols && r * cols + cols <= n);
        }
        let base: usize = r * cols;
        let ghost row = cells.subrange(base as int, base + cols);
        let ghost before = out@;
        out.append(" [ ");
        let mut c: usize = 0;
        while c < cols
            invariant
                cells == views(texts@),
                n == texts@.len(),
                base + cols <= n,
                row == cells.subrange(base as int, base + cols),
                c <= cols,
                out@ == before + " [ "@ + spaced(row.subrange(0, c as int)),
            decreases cols - c,
        {
            let ghost line = out@;
            if c > 0 {
                out.append(" ");
            }
            out.append(texts[base + c].as_str());
            proof {
                let now = row.subrange(0, c + 1);
                assert(now.drop_last() =~= row.subrange(0, c as int));
                assert(now.last() == texts@[base + c]@);
                if c == 0 {
                    assert(spaced(row.subrange(0, 0)) =~= Seq::<char>::empty());
                    assert(spaced(now) == now[0]);
                    assert(out@ =~= before + " [ "@ + spaced(now));
                } else {
                    assert(spaced(now) == spaced(now.drop_last()) + " "@ + now.last());
                    assert(out@ =~= before + " [ "@ + spaced(now));
                }
            }
            c += 1;
        }
        out.append(" ]\n");
        proof {
            assert(row.subrange(0, cols as int) =~= row);
            assert(out@ =~= before + row_text(row));
            assert(out@ =~= "[\n"@ + rows_text(cells, cols as nat, (r + 1) as nat));
        }
        r += 1;
    }
    out.append("]");
    out
}

impl<T: Display> Matrix<T> {
    /// The text of each cell, in row-major order.
    fn cell_texts(&self) -> (texts: Vec<String>)
        ensures
            texts@.len() == self@.cells.len(),
    {
        let n: usize = self.array.len();
        let mut texts: Vec<String> = Vec::with_capacity(n);
        let mut k: usize = 0;
        while k < n
            invariant
                n == self.array@.len(),
                k <= n,
                texts@.len() == k,
            decreases n - k,
        {
            texts.push(fixed4(&self.array[k]));
            k += 1;
        }
        texts
    }

    /// The text form of the matrix: the text of each cell, laid out row by
    /// row between two brackets.
    pub fn to_text(&self) -> (out: String)
        requires
            self.wf(),
        ensures
            exists|texts: Seq<Seq<char>>|
                texts.len() == self@.cells.len() && out@ == #[trigger] grid_text(
                    texts,
                    self@.rows,
                    self@.cols,
                ),
    {
        let texts = self.cell_texts();
        let out = layout(&texts, self.rows, self.cols);
        proof {
            assert(out@ == grid_text(views(texts@), self@.rows, self@.cols));
        }
        out
    }
}

} // verus!
