//! Rendering: borders drawn around and between the composed cells, row by row.

use vstd::prelude::*;
use crate::color::Color;
use crate::compose::{cell_line, push_cell_line, push_repeat};
use crate::width::repeat;
use crate::config::{
    color_set_at,
    AlignmentHorizontal,
    AlignmentVertical,
    GridConfig,
    Line,
    Padding,
    Style,
};
use crate::entity::lookup;
use crate::estimate::{
    column_width,
    column_widths,
    heights,
    lemma_padding_wf,
    natural_height,
    natural_width,
    row_height,
    row_heights,
    widths,
};
use crate::grid::Grid;
use crate::text::{lines_view, string_from_chars};

verus! {

/// What a horizontal line draws where a vertical meets it: the junction
/// character where one is given, else the fill.
pub open spec fn junction(j: Option<char>, fill: char) -> char {
    match j {
        Some(c) => c,
        None => fill,
    }
}

/// The border color set on cell `(r, c)`, if it is in the grid.
pub open spec fn set_color(g: &Grid, cfg: &GridConfig, r: int, c: int) -> Option<Color> {
    if 0 <= r < g.rows() && 0 <= c < g.cols {
        color_set_at(cfg.cell_colors@, r, c)
    } else {
        None
    }
}

/// The first of two optional colors that is present.
pub open spec fn either(a: Option<Color>, b: Option<Color>) -> Option<Color> {
    if a is Some {
        a
    } else {
        b
    }
}

/// The color given, or the grid-wide border color.
pub open spec fn color_or_global(o: Option<Color>, cfg: &GridConfig) -> Color {
    match o {
        Some(x) => x,
        None => cfg.border_color,
    }
}

/// The color of the vertical left of column `c` in row `r`: that of the cell
/// right of it, else of the cell left of it, else the grid-wide one.
pub open spec fn vertical_color(g: &Grid, cfg: &GridConfig, r: int, c: int) -> Color {
    color_or_global(either(set_color(g, cfg, r, c), set_color(g, cfg, r, c - 1)), cfg)
}

/// The color of the horizontal run over column `c` above row `b`: that of the
/// cell below it, else of the cell above it, else the grid-wide one.
pub open spec fn segment_color(g: &Grid, cfg: &GridConfig, b: int, c: int) -> Color {
    color_or_global(either(set_color(g, cfg, b, c), set_color(g, cfg, b - 1, c)), cfg)
}

/// The color of the junction above row `b` and left of column `c`: that of the
/// first colored cell among below-right, below-left, above-right, above-left.
pub open spec fn corner_color(g: &Grid, cfg: &GridConfig, b: int, c: int) -> Color {
    color_or_global(
        either(
            either(set_color(g, cfg, b, c), set_color(g, cfg, b, c - 1)),
            either(set_color(g, cfg, b - 1, c), set_color(g, cfg, b - 1, c - 1)),
        ),
        cfg,
    )
}

/// A run of border characters wrapped in a color; nothing for an empty run.
pub open spec fn painted_run(color: Color, s: Seq<char>) -> Seq<char> {
    if s.len() == 0 {
        Seq::empty()
    } else {
        color.paint(s)
    }
}

/// The part of the horizontal line above row `b` over the first `n` columns.
pub open spec fn line_segments(g: &Grid, cfg: &GridConfig, line: Line, b: int, n: int) -> Seq<char>
    decreases n,
{
    if n <= 0 {
        Seq::empty()
    } else {
        let cross = if n > 1 && cfg.style.inner is Some {
            corner_color(g, cfg, b, n - 1).paint(seq![junction(line.cross, line.fill)])
        } else {
            Seq::empty()
        };
        line_segments(g, cfg, line, b, n - 1) + cross + painted_run(
            segment_color(g, cfg, b, n - 1),
            repeat(line.fill, widths(g, cfg)[n - 1]),
        )
    }
}

/// The horizontal line above row `b` (row count for the bottom), ended by a
/// newline. It has a character at each place where the style draws a vertical.
pub open spec fn hline(g: &Grid, cfg: &GridConfig, line: Line, b: int) -> Seq<char> {
    let left = if cfg.style.left is Some {
        corner_color(g, cfg, b, 0).paint(seq![junction(line.left, line.fill)])
    } else {
        Seq::empty()
    };
    let right = if cfg.style.right is Some {
        corner_color(g, cfg, b, g.cols as int).paint(seq![junction(line.right, line.fill)])
    } else {
        Seq::empty()
    };
    left + line_segments(g, cfg, line, b, g.cols as int) + right + seq!['\n']
}

/// The horizontal line above row `b`; nothing where it is absent.
pub open spec fn framed(g: &Grid, cfg: &GridConfig, line: Option<Line>, b: int) -> Seq<char> {
    match line {
        Some(l) => hline(g, cfg, l, b),
        None => Seq::empty(),
    }
}

/// The vertical left of column `c` in row `r`, colored; nothing where it is absent.
pub open spec fn vertical(g: &Grid, cfg: &GridConfig, ch: Option<char>, r: int, c: int) -> Seq<
    char,
> {
    match ch {
        Some(x) => vertical_color(g, cfg, r, c).paint(seq![x]),
        None => Seq::empty(),
    }
}

/// Line `i` of the cells in row `r`, over the first `n` columns, with inner verticals.
pub open spec fn row_cells(g: &Grid, cfg: &GridConfig, r: int, i: int, n: int) -> Seq<char>
    decreases n,
{
    if n <= 0 {
        Seq::empty()
    } else {
        let sep = if n > 1 {
            vertical(g, cfg, cfg.style.inner, r, n - 1)
        } else {
            Seq::empty()
        };
        row_cells(g, cfg, r, i, n - 1) + sep + cell_line(
            g.cell(r, n - 1),
            cfg.padding_at(r, n - 1),
            cfg.horizontal_at(r, n - 1),
            cfg.vertical_at(r, n - 1),
            widths(g, cfg)[n - 1],
            heights(g, cfg)[r],
            i,
        )
    }
}

/// Line `i` of row `r`, framed by the outer verticals and ended by a newline.
pub open spec fn content_line(g: &Grid, cfg: &GridConfig, r: int, i: int) -> Seq<char> {
    vertical(g, cfg, cfg.style.left, r, 0) + row_cells(g, cfg, r, i, g.cols as int) + vertical(
        g,
        cfg,
        cfg.style.right,
        r,
        g.cols as int,
    ) + seq!['\n']
}

/// The first `k` lines of row `r`.
pub open spec fn row_text(g: &Grid, cfg: &GridConfig, r: int, k: int) -> Seq<char>
    decreases k,
{
    if k <= 0 {
        Seq::empty()
    } else {
        row_text(g, cfg, r, k - 1) + content_line(g, cfg, r, k - 1)
    }
}

/// The line drawn above row `r`, if any: under the first row the header
/// line (or the split line where there is none), between later rows the split line.
pub open spec fn separator(style: Style, r: int) -> Option<Line> {
    if r <= 0 {
        None
    } else if r == 1 && style.header is Some {
        style.header
    } else {
        style.split
    }
}

/// The first `n` rows with the lines between them.
pub open spec fn body(g: &Grid, cfg: &GridConfig, n: int) -> Seq<char>
    decreases n,
{
    if n <= 0 {
        Seq::empty()
    } else {
        body(g, cfg, n - 1) + framed(g, cfg, separator(cfg.style, n - 1), n - 1) + row_text(g, cfg, n - 1, heights(g, cfg)[n - 1] as int)
    }
}

/// The rendered grid: the top frame line, the rows with the lines between
/// them, and the bottom frame line; nothing at all for a grid without rows or columns.
pub open spec fn render_text(g: &Grid, cfg: &GridConfig) -> Seq<char> {
    if g.rows() == 0 || g.cols == 0 {
        Seq::empty()
    } else {
        framed(g, cfg, cfg.style.top, 0) + body(g, cfg, g.rows() as int) + framed(
            g,
            cfg,
            cfg.style.bottom,
            g.rows() as int,
        )
    }
}

/// A column is at least as wide as any of its cells needs.
pub proof fn lemma_column_width_covers(g: &Grid, cfg: &GridConfig, c: int, n: int, r: int)
    requires
        0 <= r < n,
    ensures
        natural_width(g, cfg, r, c) <= column_width(g, cfg, c, n),
    decreases n,
{
    if r < n - 1 {
        lemma_column_width_covers(g, cfg, c, n - 1, r);
    }
}

/// A row is at least as tall as any of its cells needs.
pub proof fn lemma_row_height_covers(g: &Grid, cfg: &GridConfig, r: int, n: int, c: int)
    requires
        0 <= c < n,
    ensures
        natural_height(g, cfg, r, c) <= row_height(g, cfg, r, n),
    decreases n,
{
    if c < n - 1 {
        lemma_row_height_covers(g, cfg, r, n - 1, c);
    }
}

/// Two grids with the same cells, and two configurations with the same
/// settings, style and color.
pub open spec fn same_input(g1: &Grid, g2: &Grid, cfg1: &GridConfig, cfg2: &GridConfig) -> bool {
    &&& g1.rows() == g2.rows()
    &&& g1.cols == g2.cols
    &&& forall|r: int, c: int|
        0 <= r < g1.rows() && 0 <= c < g1.cols ==> #[trigger] g1.cell(r, c) == g2.cell(r, c)
    &&& cfg1.paddings@ == cfg2.paddings@
    &&& cfg1.horizontal@ == cfg2.horizontal@
    &&& cfg1.vertical@ == cfg2.vertical@
    &&& cfg1.style == cfg2.style
    &&& cfg1.border_color == cfg2.border_color
    &&& cfg1.cell_colors@ == cfg2.cell_colors@
}

proof fn lemma_column_width_agree(
    g1: &Grid,
    g2: &Grid,
    cfg1: &GridConfig,
    cfg2: &GridConfig,
    c: int,
    n: int,
)
    requires
        same_input(g1, g2, cfg1, cfg2),
        0 <= c < g1.cols,
        n <= g1.rows(),
    ensures
        column_width(g1, cfg1, c, n) == column_width(g2, cfg2, c, n),
    decreases n,
{
    if n > 0 {
        lemma_column_width_agree(g1, g2, cfg1, cfg2, c, n - 1);
        assert(g1.cell(n - 1, c) == g2.cell(n - 1, c));
    }
}

proof fn lemma_row_height_agree(
    g1: &Grid,
    g2: &Grid,
    cfg1: &GridConfig,
    cfg2: &GridConfig,
    r: int,
    n: int,
)
    requires
        same_input(g1, g2, cfg1, cfg2),
        0 <= r < g1.rows(),
        n <= g1.cols,
    ensures
        row_height(g1, cfg1, r, n) == row_height(g2, cfg2, r, n),
    decreases n,
{
    if n > 0 {
        lemma_row_height_agree(g1, g2, cfg1, cfg2, r, n - 1);
        assert(g1.cell(r, n - 1) == g2.cell(r, n - 1));
    }
}

proof fn lemma_dimensions_agree(g1: &Grid, g2: &Grid, cfg1: &GridConfig, cfg2: &GridConfig)
    requires
        same_input(g1, g2, cfg1, cfg2),
    ensures
        widths(g1, cfg1) == widths(g2, cfg2),
        heights(g1, cfg1) == heights(g2, cfg2),
{
    assert forall|c: int| 0 <= c < g1.cols implies #[trigger] widths(g1, cfg1)[c] == widths(
        g2,
        cfg2,
    )[c] by {
        lemma_column_width_agree(g1, g2, cfg1, cfg2, c, g1.rows() as int);
    }
    assert forall|r: int| 0 <= r < g1.rows() implies #[trigger] heights(g1, cfg1)[r] == heights(
        g2,
        cfg2,
    )[r] by {
        lemma_row_height_agree(g1, g2, cfg1, cfg2, r, g1.cols as int);
    }
    assert(widths(g1, cfg1) =~= widths(g2, cfg2));
    assert(heights(g1, cfg1) =~= heights(g2, cfg2));
}

proof fn lemma_row_text_agree(
    g1: &Grid,
    g2: &Grid,
    cfg1: &GridConfig,
    cfg2: &GridConfig,
    r: int,
    k: int,
)
    requires
        same_input(g1, g2, cfg1, cfg2),
        0 <= r < g1.rows(),
    ensures
        row_text(g1, cfg1, r, k) == row_text(g2, cfg2, r, k),
    decreases k,
{
    if k > 0 {
        lemma_row_text_agree(g1, g2, cfg1, cfg2, r, k - 1);
        lemma_dimensions_agree(g1, g2, cfg1, cfg2);
        lemma_row_cells_agree(g1, g2, cfg1, cfg2, r, k - 1, g1.cols as int);
    }
}

proof fn lemma_row_cells_agree(
    g1: &Grid,
    g2: &Grid,
    cfg1: &GridConfig,
    cfg2: &GridConfig,
    r: int,
    i: int,
    n: int,
)
    requires
        same_input(g1, g2, cfg1, cfg2),
        widths(g1, cfg1) == widths(g2, cfg2),
        heights(g1, cfg1) == heights(g2, cfg2),
        0 <= r < g1.rows(),
        n <= g1.cols,
    ensures
        row_cells(g1, cfg1, r, i, n) == row_cells(g2, cfg2, r, i, n),
    decreases n,
{
    if n > 0 {
        lemma_row_cells_agree(g1, g2, cfg1, cfg2, r, i, n - 1);
        assert(g1.cell(r, n - 1) == g2.cell(r, n - 1));
    }
}

proof fn lemma_segments_agree(
    g1: &Grid,
    g2: &Grid,
    cfg1: &GridConfig,
    cfg2: &GridConfig,
    line: Line,
    b: int,
    n: int,
)
    requires
        same_input(g1, g2, cfg1, cfg2),
        widths(g1, cfg1) == widths(g2, cfg2),
        n <= g1.cols,
    ensures
        line_segments(g1, cfg1, line, b, n) == line_segments(g2, cfg2, line, b, n),
    decreases n,
{
    if n > 0 {
        lemma_segments_agree(g1, g2, cfg1, cfg2, line, b, n - 1);
    }
}

proof fn lemma_framed_agree(
    g1: &Grid,
    g2: &Grid,
    cfg1: &GridConfig,
    cfg2: &GridConfig,
    line: Option<Line>,
    b: int,
)
    requires
        same_input(g1, g2, cfg1, cfg2),
    ensures
        framed(g1, cfg1, line, b) == framed(g2, cfg2, line, b),
{
    lemma_dimensions_agree(g1, g2, cfg1, cfg2);
    if let Some(l) = line {
        lemma_segments_agree(g1, g2, cfg1, cfg2, l, b, g1.cols as int);
    }
}

proof fn lemma_body_agree(g1: &Grid, g2: &Grid, cfg1: &GridConfig, cfg2: &GridConfig, n: int)
    requires
        same_input(g1, g2, cfg1, cfg2),
        n <= g1.rows(),
    ensures
        body(g1, cfg1, n) == body(g2, cfg2, n),
    decreases n,
{
    if n > 0 {
        lemma_body_agree(g1, g2, cfg1, cfg2, n - 1);
        lemma_dimensions_agree(g1, g2, cfg1, cfg2);
        lemma_row_text_agree(g1, g2, cfg1, cfg2, n - 1, heights(g1, cfg1)[n - 1] as int);
        lemma_framed_agree(g1, g2, cfg1, cfg2, separator(cfg1.style, n - 1), n - 1);
    }
}

/// Rendering is a function of the cells and the settings alone: grids and
/// configurations that agree on them render to the same text.
pub proof fn lemma_render_deterministic(
    g1: &Grid,
    g2: &Grid,
    cfg1: &GridConfig,
    cfg2: &GridConfig,
)
    requires
        same_input(g1, g2, cfg1, cfg2),
    ensures
        render_text(g1, cfg1) == render_text(g2, cfg2),
{
    lemma_dimensions_agree(g1, g2, cfg1, cfg2);
    lemma_body_agree(g1, g2, cfg1, cfg2, g1.rows() as int);
    lemma_framed_agree(g1, g2, cfg1, cfg2, cfg1.style.top, 0);
    lemma_framed_agree(g1, g2, cfg1, cfg2, cfg1.style.bottom, g1.rows() as int);
}

fn push_one(out: &mut Vec<char>, c: char)
    ensures
        final(out)@ == old(out)@ + seq![c],
{
    out.push(c);
    assert(out@ =~= old(out)@ + seq![c]);
}

/// Where the border color set on cell `(r, c)` is held, if it is in the grid.
fn set_color_index(g: &Grid, cfg: &GridConfig, r: usize, c: usize) -> (res: Option<usize>)
    ensures
        res matches Some(k) ==> k < cfg.cell_colors@.len() && set_color(g, cfg, r as int, c as int)
            == Some(cfg.cell_colors@[k as int].2),
        res is None ==> set_color(g, cfg, r as int, c as int) is None,
{
    if r >= g.cells.len() || c >= g.cols {
        return None;
    }
    let mut found: Option<usize> = None;
    let mut k: usize = 0;
    while k < cfg.cell_colors.len()
        invariant
            k <= cfg.cell_colors@.len(),
            found matches Some(j) ==> j < k && color_set_at(
                cfg.cell_colors@.subrange(0, k as int),
                r as int,
                c as int,
            ) == Some(cfg.cell_colors@[j as int].2),
            found is None ==> color_set_at(cfg.cell_colors@.subrange(0, k as int), r as int, c as int) is None,
        decreases cfg.cell_colors@.len() - k,
    {
        proof {
            let t = cfg.cell_colors@.subrange(0, k + 1);
            assert(t.drop_last() =~= cfg.cell_colors@.subrange(0, k as int));
            assert(t.last() == cfg.cell_colors@[k as int]);
        }
        if cfg.cell_colors[k].0 == r && cfg.cell_colors[k].1 == c {
            found = Some(k);
        }
        k = k + 1;
    }
    assert(cfg.cell_colors@.subrange(0, k as int) =~= cfg.cell_colors@);
    found
}

fn first_of(a: Option<usize>, b: Option<usize>) -> (r: Option<usize>)
    ensures
        r == if a is Some {
            a
        } else {
            b
        },
{
    if a.is_some() {
        a
    } else {
        b
    }
}

fn color_at_index<'a>(cfg: &'a GridConfig, idx: Option<usize>) -> (r: &'a Color)
    requires
        idx matches Some(k) ==> k < cfg.cell_colors@.len(),
    ensures
        *r == match idx {
            Some(k) => cfg.cell_colors@[k as int].2,
            None => cfg.border_color,
        },
{
    match idx {
        Some(k) => &cfg.cell_colors[k].2,
        None => &cfg.border_color,
    }
}

fn vertical_color_of<'a>(g: &Grid, cfg: &'a GridConfig, r: usize, c: usize) -> (res: &'a Color)
    ensures
        *res == vertical_color(g, cfg, r as int, c as int),
{
    let a = set_color_index(g, cfg, r, c);
    let b = if c > 0 {
        set_color_index(g, cfg, r, c - 1)
    } else {
        None
    };
    color_at_index(cfg, first_of(a, b))
}

fn segment_color_of<'a>(g: &Grid, cfg: &'a GridConfig, b: usize, c: usize) -> (res: &'a Color)
    ensures
        *res == segment_color(g, cfg, b as int, c as int),
{
    let x = set_color_index(g, cfg, b, c);
    let y = if b > 0 {
        set_color_index(g, cfg, b - 1, c)
    } else {
        None
    };
    color_at_index(cfg, first_of(x, y))
}

fn corner_color_of<'a>(g: &Grid, cfg: &'a GridConfig, b: usize, c: usize) -> (res: &'a Color)
    ensures
        *res == corner_color(g, cfg, b as int, c as int),
{
    let below_right = set_color_index(g, cfg, b, c);
    let below_left = if c > 0 {
        set_color_index(g, cfg, b, c - 1)
    } else {
        None
    };
    let above_right = if b > 0 {
        set_color_index(g, cfg, b - 1, c)
    } else {
        None
    };
    let above_left = if b > 0 && c > 0 {
        set_color_index(g, cfg, b - 1, c - 1)
    } else {
        None
    };
    color_at_index(
        cfg,
        first_of(first_of(below_right, below_left), first_of(above_right, above_left)),
    )
}

fn push_painted_char(out: &mut Vec<char>, color: &Color, ch: char)
    ensures
        final(out)@ == old(out)@ + color.paint(seq![ch]),
{
    let mut one: Vec<char> = Vec::new();
    one.push(ch);
    assert(one@ =~= seq![ch]);
    color.paint_into(out, &one);
}

fn push_hline(out: &mut Vec<char>, g: &Grid, cfg: &GridConfig, ws: &Vec<usize>, line: Line, b: usize)
    requires
        ws@.len() == g.cols,
        forall|c: int| 0 <= c < g.cols ==> ws@[c] == #[trigger] widths(g, cfg)[c],
    ensures
        final(out)@ == old(out)@ + hline(g, cfg, line, b as int),
{
    let ghost start = out@;
    let fill = line.fill;
    if cfg.style.left.is_some() {
        let j = match line.left {
            Some(x) => x,
            None => fill,
        };
        push_painted_char(out, corner_color_of(g, cfg, b, 0), j);
    }
    let ghost left = out@;
    let mut c: usize = 0;
    while c < g.cols
        invariant
            ws@.len() == g.cols,
            forall|c: int| 0 <= c < g.cols ==> ws@[c] == #[trigger] widths(g, cfg)[c],
            c <= g.cols,
            fill == line.fill,
            out@ == left + line_segments(g, cfg, line, b as int, c as int),
        decreases g.cols - c,
    {
        if c > 0 && cfg.style.inner.is_some() {
            let j = match line.cross {
                Some(x) => x,
                None => fill,
            };
            push_painted_char(out, corner_color_of(g, cfg, b, c), j);
        }
        if ws[c] > 0 {
            let mut run: Vec<char> = Vec::new();
            push_repeat(&mut run, fill, ws[c]);
            assert(run@ =~= repeat(fill, ws@[c as int] as nat));
            segment_color_of(g, cfg, b, c).paint_into(out, &run);
        }
        c = c + 1;
        assert(out@ =~= left + line_segments(g, cfg, line, b as int, c as int));
    }
    if cfg.style.right.is_some() {
        let j = match line.right {
            Some(x) => x,
            None => fill,
        };
        push_painted_char(out, corner_color_of(g, cfg, b, g.cols), j);
    }
    push_one(out, '\n');
    assert(out@ =~= start + hline(g, cfg, line, b as int));
}

fn push_framed(
    out: &mut Vec<char>,
    g: &Grid,
    cfg: &GridConfig,
    ws: &Vec<usize>,
    line: Option<Line>,
    b: usize,
)
    requires
        ws@.len() == g.cols,
        forall|c: int| 0 <= c < g.cols ==> ws@[c] == #[trigger] widths(g, cfg)[c],
    ensures
        final(out)@ == old(out)@ + framed(g, cfg, line, b as int),
{
    let ghost start = out@;
    match line {
        Some(l) => push_hline(out, g, cfg, ws, l, b),
        None => {},
    }
    assert(out@ =~= start + framed(g, cfg, line, b as int));
}

fn push_vertical(out: &mut Vec<char>, g: &Grid, cfg: &GridConfig, ch: Option<char>, r: usize, c: usize)
    ensures
        final(out)@ == old(out)@ + vertical(g, cfg, ch, r as int, c as int),
{
    let ghost start = out@;
    match ch {
        Some(x) => push_painted_char(out, vertical_color_of(g, cfg, r, c), x),
        None => {},
    }
    assert(out@ =~= start + vertical(g, cfg, ch, r as int, c as int));
}

fn push_content_line(
    out: &mut Vec<char>,
    g: &Grid,
    cfg: &GridConfig,
    ws: &Vec<usize>,
    hs: &Vec<usize>,
    r: usize,
    i: usize,
)
    requires
        g.wf(),
        cfg.wf(),
        r < g.rows(),
        ws@.len() == g.cols,
        forall|c: int| 0 <= c < g.cols ==> ws@[c] == #[trigger] widths(g, cfg)[c],
        hs@.len() == g.rows(),
        forall|k: int| 0 <= k < g.rows() ==> hs@[k] == #[trigger] heights(g, cfg)[k],
    ensures
        final(out)@ == old(out)@ + content_line(g, cfg, r as int, i as int),
{
    let ghost start = out@;
    push_vertical(out, g, cfg, cfg.style.left, r, 0);
    let ghost left = out@;
    let mut c: usize = 0;
    while c < g.cols
        invariant
            g.wf(),
            cfg.wf(),
            r < g.rows(),
            ws@.len() == g.cols,
            forall|c: int| 0 <= c < g.cols ==> ws@[c] == #[trigger] widths(g, cfg)[c],
            hs@.len() == g.rows(),
            forall|k: int| 0 <= k < g.rows() ==> hs@[k] == #[trigger] heights(g, cfg)[k],
            c <= g.cols,
            out@ == left + row_cells(g, cfg, r as int, i as int, c as int),
        decreases g.cols - c,
    {
        if c > 0 {
            push_vertical(out, g, cfg, cfg.style.inner, r, c);
        }
        let p = lookup(&cfg.paddings, r, c, Padding { top: 0, bottom: 0, left: 1, right: 1, fill: ' ' });
        let h = lookup(&cfg.horizontal, r, c, AlignmentHorizontal::Center);
        let v = lookup(&cfg.vertical, r, c, AlignmentVertical::Top);
        proof {
            lemma_padding_wf(cfg, r as int, c as int);
            crate::estimate::lemma_cell_lines(g, r as int, c as int);
            lemma_column_width_covers(g, cfg, c as int, g.rows() as int, r as int);
            lemma_row_height_covers(g, cfg, r as int, g.cols as int, c as int);
            assert(widths(g, cfg)[c as int] == column_width(g, cfg, c as int, g.rows() as int));
            assert(heights(g, cfg)[r as int] == row_height(g, cfg, r as int, g.cols as int));
            assert(lines_view(g.cells@[r as int]@[c as int]) == g.cell(r as int, c as int));
        }
        push_cell_line(out, &g.cells[r][c], p, h, v, ws[c], hs[r], i);
        c = c + 1;
        assert(out@ =~= left + row_cells(g, cfg, r as int, i as int, c as int));
    }
    push_vertical(out, g, cfg, cfg.style.right, r, g.cols);
    push_one(out, '\n');
    assert(out@ =~= start + content_line(g, cfg, r as int, i as int));
}

fn push_row(out: &mut Vec<char>, g: &Grid, cfg: &GridConfig, ws: &Vec<usize>, hs: &Vec<usize>, r: usize)
    requires
        g.wf(),
        cfg.wf(),
        r < g.rows(),
        ws@.len() == g.cols,
        forall|c: int| 0 <= c < g.cols ==> ws@[c] == #[trigger] widths(g, cfg)[c],
        hs@.len() == g.rows(),
        forall|k: int| 0 <= k < g.rows() ==> hs@[k] == #[trigger] heights(g, cfg)[k],
    ensures
        final(out)@ == old(out)@ + framed(g, cfg, separator(cfg.style, r as int), r as int) + row_text(
            g,
            cfg,
            r as int,
            heights(g, cfg)[r as int] as int,
        ),
{
    let ghost start = out@;
    let sep = if r == 0 {
        None
    } else if r == 1 && cfg.style.header.is_some() {
        cfg.style.header
    } else {
        cfg.style.split
    };
    assert(sep == separator(cfg.style, r as int));
    push_framed(out, g, cfg, ws, sep, r);
    let ghost sep_done = out@;
    let mut i: usize = 0;
    while i < hs[r]
        invariant
            g.wf(),
            cfg.wf(),
            ws@.len() == g.cols,
            forall|c: int| 0 <= c < g.cols ==> ws@[c] == #[trigger] widths(g, cfg)[c],
            hs@.len() == g.rows(),
            forall|k: int| 0 <= k < g.rows() ==> hs@[k] == #[trigger] heights(g, cfg)[k],
            r < g.rows(),
            i <= hs@[r as int],
            out@ == sep_done + row_text(g, cfg, r as int, i as int),
        decreases hs@[r as int] - i,
    {
        push_content_line(out, g, cfg, ws, hs, r, i);
        i = i + 1;
        assert(out@ =~= sep_done + row_text(g, cfg, r as int, i as int));
    }
    assert(out@ =~= start + framed(g, cfg, separator(cfg.style, r as int), r as int) + row_text(
        g,
        cfg,
        r as int,
        heights(g, cfg)[r as int] as int,
    ));
}

/// Renders the grid under the configuration, one newline after every line.
pub fn render(g: &Grid, cfg: &GridConfig) -> (s: String)
    requires
        g.wf(),
        cfg.wf(),
    ensures
        s@ == render_text(g, cfg),
        g.rows() == 0 || g.cols == 0 ==> s@.len() == 0,
{
    let mut out: Vec<char> = Vec::new();
    if g.cells.len() == 0 || g.cols == 0 {
        return string_from_chars(&out);
    }
    let ws = column_widths(g, cfg);
    let hs = row_heights(g, cfg);
    push_framed(&mut out, g, cfg, &ws, cfg.style.top, 0);
    let ghost top = out@;
    let mut r: usize = 0;
    while r < g.cells.len()
        invariant
            g.wf(),
            cfg.wf(),
            ws@.len() == g.cols,
            forall|c: int| 0 <= c < g.cols ==> ws@[c] == #[trigger] widths(g, cfg)[c],
            hs@.len() == g.rows(),
            forall|k: int| 0 <= k < g.rows() ==> hs@[k] == #[trigger] heights(g, cfg)[k],
            r <= g.rows(),
            out@ == top + body(g, cfg, r as int),
        decreases g.rows() - r,
    {
        push_row(&mut out, g, cfg, &ws, &hs, r);
        r = r + 1;
        assert(out@ =~= top + body(g, cfg, r as int));
    }
    push_framed(&mut out, g, cfg, &ws, cfg.style.bottom, g.cells.len());
    assert(out@ =~= render_text(g, cfg));
    string_from_chars(&out)
}

} // verus!
