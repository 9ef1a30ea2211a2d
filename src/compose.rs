//! Cell composition: the exact lines of one cell, padded and aligned within
//! the width and height allotted to it.

use vstd::prelude::*;
use crate::config::{AlignmentHorizontal, AlignmentVertical, Padding};
use crate::config::GridConfig;
use crate::estimate::{column_width, lines_width, natural_width, widths};
use crate::grid::Grid;
use crate::text::lines_view;
use crate::width::{
    display_width,
    char_width,
    lemma_repeat_width,
    lemma_text_width_concat,
    repeat,
    text_width,
    MAX_LINE_CHARS,
};

verus! {

/// `line` placed within `width` columns: `fill` added on the right, on the
/// left, or split with the odd one on the right.
pub open spec fn align_line(line: Seq<char>, width: nat, h: AlignmentHorizontal, fill: char) -> Seq<
    char,
> {
    let free = (width - text_width(line)) as nat;
    match h {
        AlignmentHorizontal::Left => line + repeat(fill, free),
        AlignmentHorizontal::Right => repeat(fill, free) + line,
        AlignmentHorizontal::Center => repeat(fill, free / 2) + line + repeat(
            fill,
            (free - free / 2) as nat,
        ),
    }
}

/// How many blank lines stand above the content inside the padding: none for
/// top alignment, all for bottom, half (rounded down) for center.
pub open spec fn content_offset(n: nat, inner_height: nat, v: AlignmentVertical) -> nat {
    let free = (inner_height - n) as nat;
    match v {
        AlignmentVertical::Top => 0,
        AlignmentVertical::Bottom => free,
        AlignmentVertical::Center => free / 2,
    }
}

/// Line `i` of a cell holding `lines`, composed into `width` by `height`.
pub open spec fn cell_line(
    lines: Seq<Seq<char>>,
    p: Padding,
    h: AlignmentHorizontal,
    v: AlignmentVertical,
    width: nat,
    height: nat,
    i: int,
) -> Seq<char> {
    let inner_width = (width - p.left - p.right) as nat;
    let inner_height = (height - p.top - p.bottom) as nat;
    let start = p.top + content_offset(lines.len(), inner_height, v);
    if start <= i < start + lines.len() {
        repeat(p.fill, p.left as nat) + align_line(lines[i - start], inner_width, h, p.fill)
            + repeat(p.fill, p.right as nat)
    } else {
        repeat(p.fill, width)
    }
}

/// An aligned line is exactly as wide as asked, whatever the alignment, when
/// the fill character takes one column.
pub proof fn lemma_align_line_width(line: Seq<char>, width: nat, h: AlignmentHorizontal, fill: char)
    requires
        text_width(line) <= width,
        char_width(fill) == 1,
    ensures
        text_width(align_line(line, width, h, fill)) == width,
{
    let free = (width - text_width(line)) as nat;
    lemma_repeat_width(fill, free);
    lemma_repeat_width(fill, free / 2);
    lemma_repeat_width(fill, (free - free / 2) as nat);
    match h {
        AlignmentHorizontal::Left => {
            lemma_text_width_concat(line, repeat(fill, free));
        },
        AlignmentHorizontal::Right => {
            lemma_text_width_concat(repeat(fill, free), line);
        },
        AlignmentHorizontal::Center => {
            lemma_text_width_concat(repeat(fill, free / 2), line);
            lemma_text_width_concat(
                repeat(fill, free / 2) + line,
                repeat(fill, (free - free / 2) as nat),
            );
        },
    }
}

/// Centering puts the odd space on the right, and the odd blank line below.
pub proof fn lemma_center_extra_after(free: nat, n: nat, inner_height: nat)
    requires
        n <= inner_height,
    ensures
        free / 2 <= free - free / 2 <= free / 2 + 1,
        content_offset(n, inner_height, AlignmentVertical::Center) <= inner_height - n
            - content_offset(n, inner_height, AlignmentVertical::Center),
{
}

/// Every line of a composed cell is exactly as wide as the cell, when its
/// fill character takes one column.
pub proof fn lemma_cell_line_width(
    lines: Seq<Seq<char>>,
    p: Padding,
    h: AlignmentHorizontal,
    v: AlignmentVertical,
    width: nat,
    height: nat,
    i: int,
)
    requires
        lines_width(lines) + p.left + p.right <= width,
        lines.len() + p.top + p.bottom <= height,
        char_width(p.fill) == 1,
    ensures
        text_width(cell_line(lines, p, h, v, width, height, i)) == width,
{
    let inner_width = (width - p.left - p.right) as nat;
    let inner_height = (height - p.top - p.bottom) as nat;
    let start = p.top + content_offset(lines.len(), inner_height, v);
    if start <= i < start + lines.len() {
        let line = lines[i - start];
        lemma_lines_width_bound(lines, i - start);
        lemma_align_line_width(line, inner_width, h, p.fill);
        lemma_repeat_width(p.fill, p.left as nat);
        lemma_repeat_width(p.fill, p.right as nat);
        lemma_text_width_concat(
            repeat(p.fill, p.left as nat),
            align_line(line, inner_width, h, p.fill),
        );
        lemma_text_width_concat(
            repeat(p.fill, p.left as nat) + align_line(line, inner_width, h, p.fill),
            repeat(p.fill, p.right as nat),
        );
    } else {
        lemma_repeat_width(p.fill, width);
    }
}

/// No line is wider than the widest.
pub proof fn lemma_lines_width_bound(lines: Seq<Seq<char>>, k: int)
    requires
        0 <= k < lines.len(),
    ensures
        text_width(lines[k]) <= lines_width(lines),
    decreases lines.len(),
{
    if k < lines.len() - 1 {
        lemma_lines_width_bound(lines.drop_last(), k);
    }
}

/// Appends `n` copies of `c`.
pub fn push_repeat(out: &mut Vec<char>, c: char, n: usize)
    ensures
        final(out)@ == old(out)@ + repeat(c, n as nat),
{
    let ghost start = out@;
    let mut i: usize = 0;
    while i < n
        invariant
            i <= n,
            out@ == start + repeat(c, i as nat),
        decreases n - i,
    {
        out.push(c);
        i = i + 1;
        assert(out@ =~= start + repeat(c, i as nat));
    }
}

/// Appends `line` aligned within `width` columns.
pub fn push_aligned(
    out: &mut Vec<char>,
    line: &Vec<char>,
    width: usize,
    h: AlignmentHorizontal,
    fill: char,
)
    requires
        line@.len() <= MAX_LINE_CHARS,
        text_width(line@) <= width,
    ensures
        final(out)@ == old(out)@ + align_line(line@, width as nat, h, fill),
{
    let ghost start = out@;
    let free = width - display_width(line);
    match h {
        AlignmentHorizontal::Left => {
            crate::color::append(out, line);
            push_repeat(out, fill, free);
        },
        AlignmentHorizontal::Right => {
            push_repeat(out, fill, free);
            crate::color::append(out, line);
        },
        AlignmentHorizontal::Center => {
            push_repeat(out, fill, free / 2);
            crate::color::append(out, line);
            push_repeat(out, fill, free - free / 2);
        },
    }
    assert(out@ =~= start + align_line(line@, width as nat, h, fill));
}

/// `line` aligned within `width` columns with `fill`, or `None` where it is
/// wider than that.
pub fn align_text(line: &Vec<char>, width: usize, h: AlignmentHorizontal, fill: char) -> (r: Option<
    Vec<char>,
>)
    requires
        line@.len() <= MAX_LINE_CHARS,
    ensures
        r is Some <==> text_width(line@) <= width,
        r matches Some(v) ==> v@ == align_line(line@, width as nat, h, fill),
{
    if display_width(line) > width {
        None
    } else {
        let mut out: Vec<char> = Vec::new();
        push_aligned(&mut out, line, width, h, fill);
        assert(out@ =~= align_line(line@, width as nat, h, fill));
        Some(out)
    }
}

/// Appends line `i` of a cell composed into `width` by `height`.
pub fn push_cell_line(
    out: &mut Vec<char>,
    lines: &Vec<Vec<char>>,
    p: Padding,
    h: AlignmentHorizontal,
    v: AlignmentVertical,
    width: usize,
    height: usize,
    i: usize,
)
    requires
        forall|k: int| 0 <= k < lines@.len() ==> (#[trigger] lines@[k])@.len() <= MAX_LINE_CHARS,
        lines_width(lines_view(*lines)) + p.left + p.right <= width,
        lines@.len() + p.top + p.bottom <= height,
    ensures
        final(out)@ == old(out)@ + cell_line(
            lines_view(*lines),
            p,
            h,
            v,
            width as nat,
            height as nat,
            i as int,
        ),
{
    let ghost start = out@;
    let ghost lv = lines_view(*lines);
    let inner_width = width - p.left - p.right;
    let inner_height = height - p.top - p.bottom;
    let free = inner_height - lines.len();
    let offset = match v {
        AlignmentVertical::Top => 0,
        AlignmentVertical::Bottom => free,
        AlignmentVertical::Center => free / 2,
    };
    let first = p.top + offset;
    if first <= i && i < first + lines.len() {
        let k = i - first;
        proof {
            lemma_lines_width_bound(lv, k as int);
            assert(lv[k as int] == lines@[k as int]@);
        }
        push_repeat(out, p.fill, p.left);
        push_aligned(out, &lines[k], inner_width, h, p.fill);
        push_repeat(out, p.fill, p.right);
    } else {
        push_repeat(out, p.fill, width);
    }
    assert(out@ =~= start + cell_line(lv, p, h, v, width as nat, height as nat, i as int));
}

/// The room for content in cell `(r, c)`: its column's width less its side padding.
pub open spec fn inner_width(g: &Grid, cfg: &GridConfig, r: int, c: int) -> nat {
    let p = cfg.padding_at(r, c);
    (widths(g, cfg)[c] - p.left - p.right) as nat
}

/// Each of `lines` aligned within `width` columns with `fill`.
pub open spec fn aligned_lines(
    lines: Seq<Seq<char>>,
    width: nat,
    h: AlignmentHorizontal,
    fill: char,
) -> Seq<Seq<char>> {
    lines.map_values(|l: Seq<char>| align_line(l, width, h, fill))
}

/// Every fill character in force takes one column.
pub open spec fn narrow_fills(g: &Grid, cfg: &GridConfig) -> bool {
    forall|r: int, c: int|
        0 <= r < g.rows() && 0 <= c < g.cols ==> char_width(#[trigger] cfg.padding_at(r, c).fill)
            == 1
}

proof fn lemma_lines_width_uniform(lines: Seq<Seq<char>>, w: nat)
    requires
        lines.len() >= 1,
        forall|k: int| 0 <= k < lines.len() ==> text_width(#[trigger] lines[k]) == w,
    ensures
        lines_width(lines) == w,
    decreases lines.len(),
{
    if lines.len() > 1 {
        assert forall|k: int| 0 <= k < lines.drop_last().len() implies text_width(
            #[trigger] lines.drop_last()[k],
        ) == w by {
            assert(lines.drop_last()[k] == lines[k]);
        }
        lemma_lines_width_uniform(lines.drop_last(), w);
    } else {
        assert(lines_width(lines.drop_last()) == 0);
    }
    assert(text_width(lines.last()) == w);
}

proof fn lemma_column_stable(g: &Grid, g2: &Grid, cfg: &GridConfig, c: int, n: int)
    requires
        g.wf(),
        narrow_fills(g, cfg),
        g2.rows() == g.rows(),
        g2.cols == g.cols,
        0 <= c < g.cols,
        1 <= n <= g.rows(),
        forall|r: int, c: int|
            0 <= r < g.rows() && 0 <= c < g.cols ==> #[trigger] g2.cell(r, c) == aligned_lines(
                g.cell(r, c),
                inner_width(g, cfg, r, c),
                cfg.horizontal_at(r, c),
                cfg.padding_at(r, c).fill,
            ),
    ensures
        column_width(g2, cfg, c, n) == widths(g, cfg)[c],
    decreases n,
{
    let r = n - 1;
    let w = widths(g, cfg)[c];
    let p = cfg.padding_at(r, c);
    let iw = inner_width(g, cfg, r, c);
    let h = cfg.horizontal_at(r, c);
    let f = p.fill;
    crate::render::lemma_column_width_covers(g, cfg, c, g.rows() as int, r);
    assert(g.cell(r, c).len() >= 1);
    assert forall|k: int| 0 <= k < g.cell(r, c).len() implies text_width(
        #[trigger] aligned_lines(g.cell(r, c), iw, h, f)[k],
    ) == iw by {
        lemma_lines_width_bound(g.cell(r, c), k);
        lemma_align_line_width(g.cell(r, c)[k], iw, h, f);
    }
    lemma_lines_width_uniform(aligned_lines(g.cell(r, c), iw, h, f), iw);
    assert(natural_width(g2, cfg, r, c) == w);
    if n > 1 {
        lemma_column_stable(g, g2, cfg, c, n - 1);
    } else {
        assert(column_width(g2, cfg, c, 0) == 0);
    }
}

/// Measuring again a grid whose lines were aligned to the widths measured
/// gives back the same widths (with fill characters one column wide).
pub proof fn lemma_widths_stable(g: &Grid, g2: &Grid, cfg: &GridConfig)
    requires
        g.wf(),
        narrow_fills(g, cfg),
        g2.rows() == g.rows(),
        g2.cols == g.cols,
        forall|r: int, c: int|
            0 <= r < g.rows() && 0 <= c < g.cols ==> #[trigger] g2.cell(r, c) == aligned_lines(
                g.cell(r, c),
                inner_width(g, cfg, r, c),
                cfg.horizontal_at(r, c),
                cfg.padding_at(r, c).fill,
            ),
    ensures
        widths(g2, cfg) == widths(g, cfg),
{
    assert forall|c: int| 0 <= c < g.cols implies #[trigger] widths(g2, cfg)[c] == widths(
        g,
        cfg,
    )[c] by {
        if g.rows() == 0 {
        } else {
            lemma_column_stable(g, g2, cfg, c, g.rows() as int);
        }
    }
    assert(widths(g2, cfg) =~= widths(g, cfg));
}

} // verus!
