//! The text form of a matrix: one line for each row, the cells of a row
//! parted by one space, each row closed by a line feed.

use vstd::prelude::*;
use vstd::string::to_string_from_display_ensures;
use core::fmt::Display;
use crate::grid::Grid;
use crate::matrix::Matrix;

verus! {

/// What follows the `k`-th text of a layout in rows of `width` texts, counting
/// from 1: a line feed behind the last text of a row, a space behind any other.
pub open spec fn separator(k: nat, width: nat) -> Seq<char> {
    if k % width == 0 {
        seq!['\n']
    } else {
        seq![' ']
    }
}

/// The first `k` of the texts, each followed by its separator.
pub open spec fn laid_out(texts: Seq<String>, width: nat, k: nat) -> Seq<char>
    decreases k,
{
    if k == 0 {
        Seq::empty()
    } else {
        laid_out(texts, width, (k - 1) as nat) + texts[k - 1]@ + separator(k, width)
    }
}

/// `out` is a text form of `g`: the layout, in rows of `g.cols`, of texts of
/// which each is what `to_string` may give for the cell at its position.
pub open spec fn is_rendering<T: Display>(g: Grid<T>, out: Seq<char>) -> bool {
    exists|texts: Seq<String>|
        {
            &&& texts.len() == g.cells.len()
            &&& forall|k: int|
                0 <= k < texts.len() ==> to_string_from_display_ensures::<T>(
                    &g.cells[k],
                    #[trigger] texts[k],
                )
            &&& out == #[trigger] laid_out(texts, g.cols, texts.len())
        }
}

/// Lays the texts out in rows of `width`.
pub fn layout(texts: &Vec<String>, width: usize) -> (out: String)
    requires
        width > 0,
    ensures
        out@ == laid_out(texts@, width as nat, texts@.len()),
{
    let mut out = String::new();
    let mut k: usize = 0;
    while k < texts.len()
        invariant
            width > 0,
            k <= texts@.len(),
            out@ == laid_out(texts@, width as nat, k as nat),
        decreases texts@.len() - k,
    {
        out.append(texts[k].as_str());
        if (k + 1) % width == 0 {
            proof {
                reveal_strlit("\n");
                assert("\n"@ =~= seq!['\n']);
            }
            out.append("\n");
        } else {
            proof {
                reveal_strlit(" ");
                assert(" "@ =~= seq![' ']);
            }
            out.append(" ");
        }
        k += 1;
    }
    out
}

impl<T: Display> Matrix<T> {
    /// The text form of the matrix.
    pub fn render(&self) -> (out: String)
        ensures
            is_rendering(self@, out@),
    {
        let cells = self.entries();
        let mut texts: Vec<String> = Vec::new();
        let mut k: usize = 0;
        while k < cells.len()
            invariant
                k <= cells@.len(),
                texts@.len() == k,
                forall|p: int|
                    0 <= p < k ==> to_string_from_display_ensures::<T>(
                        &cells@[p],
                        #[trigger] texts@[p],
                    ),
            decreases cells@.len() - k,
        {
            texts.push(cells[k].to_string());
            k += 1;
        }
        let width = self.cols();
        if width == 0 {
            assert(cells@.len() == 0) by (nonlinear_arith)
                requires
                    cells@.len() == self@.rows * self@.cols,
                    self@.cols == 0,
            ;
            let out = String::new();
            assert(out@ == laid_out(texts@, self@.cols, texts@.len()));
            out
        } else {
            let out = layout(&texts, width as usize);
            assert(out@ == laid_out(texts@, self@.cols, texts@.len()));
            out
        }
    }
}

} // verus!
