//! Dimension estimation: the width of every column and the height of every row.

use vstd::prelude::*;
use crate::config::{GridConfig, Padding};
use crate::entity::lookup;
use crate::grid::Grid;
use crate::width::{display_width, text_width, MAX_LINE_CHARS};

verus! {

/// No column is wider, and no row taller, than this.
pub const MAX_EXTENT: usize = 134217728;

/// The width of the widest line.
pub open spec fn lines_width(lines: Seq<Seq<char>>) -> nat
    decreases lines.len(),
{
    if lines.len() == 0 {
        0
    } else {
        let prev = lines_width(lines.drop_last());
        let w = text_width(lines.last());
        if w > prev {
            w
        } else {
            prev
        }
    }
}

/// The width a cell needs: its widest line and its left and right padding.
pub open spec fn natural_width(g: &Grid, cfg: &GridConfig, r: int, c: int) -> nat {
    let p = cfg.padding_at(r, c);
    (lines_width(g.cell(r, c)) + p.left + p.right) as nat
}

/// The height a cell needs: its lines and its top and bottom padding.
pub open spec fn natural_height(g: &Grid, cfg: &GridConfig, r: int, c: int) -> nat {
    let p = cfg.padding_at(r, c);
    (g.cell(r, c).len() + p.top + p.bottom) as nat
}

/// The widest natural width in column `c` among the first `n` rows.
pub open spec fn column_width(g: &Grid, cfg: &GridConfig, c: int, n: int) -> nat
    decreases n,
{
    if n <= 0 {
        0
    } else {
        let prev = column_width(g, cfg, c, n - 1);
        let w = natural_width(g, cfg, n - 1, c);
        if w > prev {
            w
        } else {
            prev
        }
    }
}

/// The tallest natural height in row `r` among the first `n` columns.
pub open spec fn row_height(g: &Grid, cfg: &GridConfig, r: int, n: int) -> nat
    decreases n,
{
    if n <= 0 {
        0
    } else {
        let prev = row_height(g, cfg, r, n - 1);
        let h = natural_height(g, cfg, r, n - 1);
        if h > prev {
            h
        } else {
            prev
        }
    }
}

/// The final width of every column.
pub open spec fn widths(g: &Grid, cfg: &GridConfig) -> Seq<nat> {
    Seq::new(g.cols as nat, |c: int| column_width(g, cfg, c, g.rows() as int))
}

/// The final height of every row.
pub open spec fn heights(g: &Grid, cfg: &GridConfig) -> Seq<nat> {
    Seq::new(g.rows(), |r: int| row_height(g, cfg, r, g.cols as int))
}

/// Every padding in force is within bounds.
pub proof fn lemma_padding_wf(cfg: &GridConfig, r: int, c: int)
    requires
        cfg.wf(),
    ensures
        cfg.padding_at(r, c).wf(),
{
    let v = cfg.padding_at(r, c);
    crate::entity::lemma_resolve_in(cfg.paddings@, r, c, v, crate::config::default_padding());
    if v != crate::config::default_padding() {
        let k = choose|k: int| 0 <= k < cfg.paddings@.len() && cfg.paddings@[k].1 == v;
        assert(cfg.paddings@[k].1.wf());
    }
}

/// The bounds of a well-formed grid, stated on its vectors.
pub(crate) proof fn lemma_cell_lines(g: &Grid, r: int, c: int)
    requires
        g.wf(),
        0 <= r < g.rows(),
        0 <= c < g.cols,
    ensures
        g.cells@[r]@.len() == g.cols,
        g.cells@[r]@[c]@.len() == g.cell(r, c).len(),
        g.cells@[r]@[c]@.len() <= MAX_LINE_CHARS,
        forall|k: int|
            0 <= k < g.cells@[r]@[c]@.len() ==> (#[trigger] g.cells@[r]@[c]@[k])@.len()
                <= MAX_LINE_CHARS,
{
    assert(g.cells@[r]@.len() == g.cols);
    assert(g.cell(r, c).len() <= MAX_LINE_CHARS);
    assert forall|k: int| 0 <= k < g.cells@[r]@[c]@.len() implies (#[trigger] g.cells@[r]@[c]@[
        k])@.len() <= MAX_LINE_CHARS by {
        assert(g.cell(r, c)[k] == g.cells@[r]@[c]@[k]@);
    }
}

/// Measures the widest line of a cell.
fn cell_lines_width(lines: &Vec<Vec<char>>) -> (r: usize)
    requires
        forall|k: int| 0 <= k < lines@.len() ==> (#[trigger] lines@[k])@.len() <= MAX_LINE_CHARS,
    ensures
        r == lines_width(crate::text::lines_view(*lines)),
        r <= 3 * MAX_LINE_CHARS,
{
    let ghost v = crate::text::lines_view(*lines);
    let mut best: usize = 0;
    let mut i: usize = 0;
    while i < lines.len()
        invariant
            i <= lines@.len(),
            v == crate::text::lines_view(*lines),
            forall|k: int| 0 <= k < lines@.len() ==> (#[trigger] lines@[k])@.len() <= MAX_LINE_CHARS,
            best == lines_width(v.subrange(0, i as int)),
            best <= 3 * MAX_LINE_CHARS,
        decreases lines@.len() - i,
    {
        proof {
            let t = v.subrange(0, i + 1);
            assert(t.drop_last() =~= v.subrange(0, i as int));
        }
        let w = display_width(&lines[i]);
        if w > best {
            best = w;
        }
        i = i + 1;
    }
    assert(v.subrange(0, i as int) =~= v);
    best
}

/// Computes the width of every column.
pub fn column_widths(g: &Grid, cfg: &GridConfig) -> (r: Vec<usize>)
    requires
        g.wf(),
        cfg.wf(),
    ensures
        r@.len() == g.cols,
        forall|c: int| 0 <= c < g.cols ==> r@[c] == #[trigger] widths(g, cfg)[c],
        forall|c: int| 0 <= c < g.cols ==> #[trigger] r@[c] <= MAX_EXTENT,
{
    let mut out: Vec<usize> = Vec::new();
    let mut c: usize = 0;
    while c < g.cols
        invariant
            g.wf(),
            cfg.wf(),
            c <= g.cols,
            out@.len() == c,
            forall|b: int| 0 <= b < c ==> out@[b] == #[trigger] widths(g, cfg)[b],
            forall|b: int| 0 <= b < c ==> #[trigger] out@[b] <= MAX_EXTENT,
        decreases g.cols - c,
    {
        let mut best: usize = 0;
        let mut r: usize = 0;
        while r < g.cells.len()
            invariant
                g.wf(),
                cfg.wf(),
                c < g.cols,
                r <= g.rows(),
                best == column_width(g, cfg, c as int, r as int),
                best <= MAX_EXTENT,
            decreases g.rows() - r,
        {
            let p = lookup(&cfg.paddings, r, c, Padding { top: 0, bottom: 0, left: 1, right: 1, fill: ' ' });
            proof {
                lemma_padding_wf(cfg, r as int, c as int);
                lemma_cell_lines(g, r as int, c as int);
            }
            let w = cell_lines_width(&g.cells[r][c]) + p.left + p.right;
            if w > best {
                best = w;
            }
            r = r + 1;
        }
        out.push(best);
        c = c + 1;
    }
    out
}

/// Computes the height of every row.
pub fn row_heights(g: &Grid, cfg: &GridConfig) -> (r: Vec<usize>)
    requires
        g.wf(),
        cfg.wf(),
    ensures
        r@.len() == g.rows(),
        forall|k: int| 0 <= k < g.rows() ==> r@[k] == #[trigger] heights(g, cfg)[k],
        forall|k: int| 0 <= k < g.rows() ==> #[trigger] r@[k] <= MAX_EXTENT,
{
    let mut out: Vec<usize> = Vec::new();
    let mut r: usize = 0;
    while r < g.cells.len()
        invariant
            g.wf(),
            cfg.wf(),
            r <= g.rows(),
            out@.len() == r,
            forall|b: int| 0 <= b < r ==> out@[b] == #[trigger] heights(g, cfg)[b],
            forall|b: int| 0 <= b < r ==> #[trigger] out@[b] <= MAX_EXTENT,
        decreases g.rows() - r,
    {
        let mut best: usize = 0;
        let mut c: usize = 0;
        while c < g.cols
            invariant
                g.wf(),
                cfg.wf(),
                r < g.rows(),
                c <= g.cols,
                best == row_height(g, cfg, r as int, c as int),
                best <= MAX_EXTENT,
            decreases g.cols - c,
        {
            let p = lookup(&cfg.paddings, r, c, Padding { top: 0, bottom: 0, left: 1, right: 1, fill: ' ' });
            proof {
                lemma_padding_wf(cfg, r as int, c as int);
                lemma_cell_lines(g, r as int, c as int);
            }
            let h = g.cells[r][c].len() + p.top + p.bottom;
            if h > best {
                best = h;
            }
            c = c + 1;
        }
        out.push(best);
        r = r + 1;
    }
    out
}

} // verus!
