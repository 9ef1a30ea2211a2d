//! The cell contents of a grid: for each position, its display lines.

use vstd::prelude::*;
use crate::text::{chars_of, lines_view, lines_of, split_lines, lemma_split_lines_shape};
use crate::width::MAX_LINE_CHARS;

verus! {

/// A rectangular grid of cells, each held as its display lines.
pub struct Grid {
    pub cells: Vec<Vec<Vec<Vec<char>>>>,
    pub cols: usize,
}

/// The length of the longest row.
pub open spec fn longest_row(data: Seq<Vec<String>>) -> nat
    decreases data.len(),
{
    if data.len() == 0 {
        0
    } else {
        let prev = longest_row(data.drop_last());
        if data.last()@.len() > prev {
            data.last()@.len()
        } else {
            prev
        }
    }
}

/// What a cell of the grid built from `data` holds: the lines of its text,
/// or one empty line where its row is short.
pub open spec fn cell_from(data: Seq<Vec<String>>, r: int, c: int) -> Seq<Seq<char>> {
    if c < data[r]@.len() {
        split_lines(data[r]@[c]@)
    } else {
        seq![Seq::<char>::empty()]
    }
}

impl Grid {
    pub open spec fn rows(&self) -> nat {
        self.cells@.len()
    }

    /// The display lines of the cell at `(r, c)`.
    pub open spec fn cell(&self, r: int, c: int) -> Seq<Seq<char>> {
        lines_view(self.cells@[r]@[c])
    }

    /// Every row has `cols` cells, every cell at least one line, and no cell
    /// more lines or a line more characters than the bound.
    pub open spec fn wf(&self) -> bool {
        &&& forall|r: int| 0 <= r < self.rows() ==> (#[trigger] self.cells@[r])@.len() == self.cols
        &&& forall|r: int, c: int|
            0 <= r < self.rows() && 0 <= c < self.cols ==> 1 <= (#[trigger] self.cell(r, c)).len()
                <= MAX_LINE_CHARS
        &&& forall|r: int, c: int, k: int|
            0 <= r < self.rows() && 0 <= c < self.cols && 0 <= k < self.cell(r, c).len() ==> (
            #[trigger] self.cell(r, c)[k]).len() <= MAX_LINE_CHARS
    }

    /// Builds a grid from rows of texts. Rows shorter than the longest are
    /// completed with empty cells.
    pub fn new(data: &Vec<Vec<String>>) -> (g: Grid)
        requires
            forall|r: int, c: int|
                0 <= r < data@.len() && 0 <= c < data@[r]@.len() ==> (
                #[trigger] data@[r]@[c])@.len() < MAX_LINE_CHARS,
        ensures
            g.wf(),
            g.rows() == data@.len(),
            g.cols == longest_row(data@),
            forall|r: int, c: int|
                0 <= r < g.rows() && 0 <= c < g.cols ==> #[trigger] g.cell(r, c) == cell_from(
                    data@,
                    r,
                    c,
                ),
    {
        let mut cols: usize = 0;
        let mut i: usize = 0;
        while i < data.len()
            invariant
                i <= data@.len(),
                cols == longest_row(data@.subrange(0, i as int)),
            decreases data@.len() - i,
        {
            proof {
                let t = data@.subrange(0, i + 1);
                assert(t.drop_last() =~= data@.subrange(0, i as int));
            }
            if data[i].len() > cols {
                cols = data[i].len();
            }
            i = i + 1;
        }
        assert(data@.subrange(0, i as int) =~= data@);
        let mut cells: Vec<Vec<Vec<Vec<char>>>> = Vec::new();
        let mut r: usize = 0;
        while r < data.len()
            invariant
                r <= data@.len(),
                cols == longest_row(data@),
                forall|r: int, c: int|
                    0 <= r < data@.len() && 0 <= c < data@[r]@.len() ==> (
                    #[trigger] data@[r]@[c])@.len() < MAX_LINE_CHARS,
                cells@.len() == r,
                forall|a: int| 0 <= a < r ==> (#[trigger] cells@[a])@.len() == cols,
                forall|a: int, c: int|
                    0 <= a < r && 0 <= c < cols ==> #[trigger] lines_view(cells@[a]@[c]) == cell_from(data@, a, c),
            decreases data@.len() - r,
        {
            let mut row: Vec<Vec<Vec<char>>> = Vec::new();
            let mut c: usize = 0;
            while c < cols
                invariant
                    r < data@.len(),
                    c <= cols,
                    row@.len() == c,
                    forall|b: int|
                        0 <= b < c ==> lines_view(#[trigger] row@[b])
                            == cell_from(data@, r as int, b),
                decreases cols - c,
            {
                if c < data[r].len() {
                    let text = chars_of(data[r][c].as_str());
                    row.push(lines_of(&text));
                } else {
                    let mut one: Vec<Vec<char>> = Vec::new();
                    one.push(Vec::new());
                    assert(lines_view(one) =~= seq![Seq::<char>::empty()]);
                    row.push(one);
                }
                c = c + 1;
            }
            cells.push(row);
            r = r + 1;
        }
        let g = Grid { cells, cols };
        assert forall|r: int, c: int|
            0 <= r < g.rows() && 0 <= c < g.cols implies 1 <= (#[trigger] g.cell(r, c)).len()
            <= MAX_LINE_CHARS && forall|k: int|
            0 <= k < g.cell(r, c).len() ==> (#[trigger] g.cell(r, c)[k]).len()
                <= MAX_LINE_CHARS by {
            assert(g.cell(r, c) == cell_from(data@, r, c));
            if c < data@[r]@.len() {
                lemma_split_lines_shape(data@[r]@[c]@);
            }
        }
        g
    }

    pub fn count_rows(&self) -> (n: usize)
        ensures
            n == self.rows(),
    {
        self.cells.len()
    }

    pub fn count_cols(&self) -> (n: usize)
        ensures
            n == self.cols,
    {
        self.cols
    }
}

} // verus!
