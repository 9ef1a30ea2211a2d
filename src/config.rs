//! Grid configuration: padding and alignment per entity, the border style,
//! and the border color.

use vstd::prelude::*;
use crate::color::Color;
use crate::entity::Entity;

verus! {

/// The largest padding, in columns or lines, on any side of a cell.
pub const MAX_PADDING: usize = 16777216;

/// Blank space around a cell's content: lines above and below, columns left
/// and right, drawn with `fill`, which also fills the room that alignment leaves.
#[derive(Clone, Copy, Debug, PartialEq, Eq, Structural)]
pub struct Padding {
    pub top: usize,
    pub bottom: usize,
    pub left: usize,
    pub right: usize,
    pub fill: char,
}

impl Padding {
    pub open spec fn wf(self) -> bool {
        self.top <= MAX_PADDING && self.bottom <= MAX_PADDING && self.left <= MAX_PADDING
            && self.right <= MAX_PADDING
    }

    /// Padding filled with spaces.
    pub fn new(top: usize, bottom: usize, left: usize, right: usize) -> (r: Padding)
        ensures
            r == (Padding { top, bottom, left, right, fill: ' ' }),
    {
        Padding { top, bottom, left, right, fill: ' ' }
    }

    /// No padding on any side.
    pub fn zero() -> (r: Padding)
        ensures
            r == (Padding { top: 0, bottom: 0, left: 0, right: 0, fill: ' ' }),
    {
        Padding { top: 0, bottom: 0, left: 0, right: 0, fill: ' ' }
    }

    /// The same padding drawn with another character.
    pub fn with_fill(self, fill: char) -> (r: Padding)
        ensures
            r == (Padding { fill, ..self }),
    {
        Padding { fill, ..self }
    }
}

/// The padding in force where nothing else is set: one column on each side.
pub open spec fn default_padding() -> Padding {
    Padding { top: 0, bottom: 0, left: 1, right: 1, fill: ' ' }
}

/// Horizontal placement of a line within a cell.
#[derive(Clone, Copy, Debug, PartialEq, Eq, Structural)]
pub enum AlignmentHorizontal {
    Left,
    Center,
    Right,
}

/// Vertical placement of a cell's lines within its row.
#[derive(Clone, Copy, Debug, PartialEq, Eq, Structural)]
pub enum AlignmentVertical {
    Top,
    Center,
    Bottom,
}

/// A horizontal border line: its fill character and the characters drawn
/// where it meets the left frame, the right frame and inner verticals.
/// A missing junction character is drawn with the fill.
#[derive(Clone, Copy, Debug, PartialEq, Eq, Structural)]
pub struct Line {
    pub fill: char,
    pub left: Option<char>,
    pub right: Option<char>,
    pub cross: Option<char>,
}

impl Line {
    pub fn full(fill: char, left: char, right: char, cross: char) -> (r: Line)
        ensures
            r == (Line { fill, left: Some(left), right: Some(right), cross: Some(cross) }),
    {
        Line { fill, left: Some(left), right: Some(right), cross: Some(cross) }
    }

    /// A line with a fill and an inner junction, and no frame junctions.
    pub fn short(fill: char, cross: char) -> (r: Line)
        ensures
            r == (Line { fill, left: None, right: None, cross: Some(cross) }),
    {
        Line { fill, left: None, right: None, cross: Some(cross) }
    }
}

/// The borders of a grid: the top and bottom frame lines, the line under the
/// first row, the line between other rows, and the left, right and inner verticals.
/// Where `header` is absent, `split` also separates the first row.
#[derive(Clone, Copy, Debug, PartialEq, Eq, Structural)]
pub struct Style {
    pub top: Option<Line>,
    pub bottom: Option<Line>,
    pub header: Option<Line>,
    pub split: Option<Line>,
    pub left: Option<char>,
    pub right: Option<char>,
    pub inner: Option<char>,
}

/// The ASCII box style.
pub open spec fn ascii_style() -> Style {
    Style {
        top: Some(Line { fill: '-', left: Some('+'), right: Some('+'), cross: Some('+') }),
        bottom: Some(Line { fill: '-', left: Some('+'), right: Some('+'), cross: Some('+') }),
        header: Some(Line { fill: '-', left: Some('+'), right: Some('+'), cross: Some('+') }),
        split: Some(Line { fill: '-', left: Some('+'), right: Some('+'), cross: Some('+') }),
        left: Some('|'),
        right: Some('|'),
        inner: Some('|'),
    }
}

impl Style {
    /// ASCII box: `+`, `-` and `|` everywhere.
    pub fn ascii() -> (r: Style)
        ensures
            r == ascii_style(),
    {
        let l = Line::full('-', '+', '+', '+');
        Style {
            top: Some(l),
            bottom: Some(l),
            header: Some(l),
            split: Some(l),
            left: Some('|'),
            right: Some('|'),
            inner: Some('|'),
        }
    }

    /// PostgreSQL's layout: inner verticals and a line under the first row only.
    pub fn psql() -> (r: Style)
        ensures
            r == (Style {
                top: None,
                bottom: None,
                header: Some(Line { fill: '-', left: None, right: None, cross: Some('+') }),
                split: None,
                left: None,
                right: None,
                inner: Some('|'),
            }),
    {
        Style {
            top: None,
            bottom: None,
            header: Some(Line::short('-', '+')),
            split: None,
            left: None,
            right: None,
            inner: Some('|'),
        }
    }

    /// A Markdown table: verticals everywhere and a line under the first row.
    pub fn github_markdown() -> (r: Style)
        ensures
            r == (Style {
                top: None,
                bottom: None,
                header: Some(Line { fill: '-', left: Some('|'), right: Some('|'), cross: Some('+') }),
                split: None,
                left: Some('|'),
                right: Some('|'),
                inner: Some('|'),
            }),
    {
        Style {
            top: None,
            bottom: None,
            header: Some(Line::full('-', '|', '|', '+')),
            split: None,
            left: Some('|'),
            right: Some('|'),
            inner: Some('|'),
        }
    }

    /// Unicode box drawing, with a line between every two rows.
    pub fn pseudo() -> (r: Style)
        ensures
            r == (Style {
                top: Some(Line { fill: '─', left: Some('┌'), right: Some('┐'), cross: Some('┬') }),
                bottom: Some(Line { fill: '─', left: Some('└'), right: Some('┘'), cross: Some('┴') }),
                header: Some(Line { fill: '─', left: Some('├'), right: Some('┤'), cross: Some('┼') }),
                split: Some(Line { fill: '─', left: Some('├'), right: Some('┤'), cross: Some('┼') }),
                left: Some('│'),
                right: Some('│'),
                inner: Some('│'),
            }),
    {
        let mid = Line::full('─', '├', '┤', '┼');
        Style {
            top: Some(Line::full('─', '┌', '┐', '┬')),
            bottom: Some(Line::full('─', '└', '┘', '┴')),
            header: Some(mid),
            split: Some(mid),
            left: Some('│'),
            right: Some('│'),
            inner: Some('│'),
        }
    }

    /// Unicode box drawing with a line under the first row only.
    pub fn pseudo_clean() -> (r: Style)
        ensures
            r == (Style {
                top: Some(Line { fill: '─', left: Some('┌'), right: Some('┐'), cross: Some('┬') }),
                bottom: Some(Line { fill: '─', left: Some('└'), right: Some('┘'), cross: Some('┴') }),
                header: Some(Line { fill: '─', left: Some('├'), right: Some('┤'), cross: Some('┼') }),
                split: None,
                left: Some('│'),
                right: Some('│'),
                inner: Some('│'),
            }),
    {
        let mut s = Style::pseudo();
        s.split = None;
        s
    }

    /// No lines at all; columns are parted by a space.
    pub fn noborder() -> (r: Style)
        ensures
            r == (Style {
                top: None,
                bottom: None,
                header: None,
                split: None,
                left: None,
                right: None,
                inner: Some(' '),
            }),
    {
        Style {
            top: None,
            bottom: None,
            header: None,
            split: None,
            left: None,
            right: None,
            inner: Some(' '),
        }
    }

    /// The style with another line under the first row.
    pub fn header(self, line: Option<Line>) -> (r: Style)
        ensures
            r == (Style { header: line, ..self }),
    {
        Style { header: line, ..self }
    }

    /// The style with another top frame line.
    pub fn frame_top(self, line: Option<Line>) -> (r: Style)
        ensures
            r == (Style { top: line, ..self }),
    {
        Style { top: line, ..self }
    }

    /// The style with another bottom frame line.
    pub fn frame_bottom(self, line: Option<Line>) -> (r: Style)
        ensures
            r == (Style { bottom: line, ..self }),
    {
        Style { bottom: line, ..self }
    }

    /// The style with another line between rows.
    pub fn split(self, line: Option<Line>) -> (r: Style)
        ensures
            r == (Style { split: line, ..self }),
    {
        Style { split: line, ..self }
    }

    /// The style with another inner vertical character.
    pub fn inner(self, c: char) -> (r: Style)
        ensures
            r == (Style { inner: Some(c), ..self }),
    {
        Style { inner: Some(c), ..self }
    }
}

/// Everything a render reads besides the cells: padding and alignment keyed
/// by entity, applied in order; the grid-wide border style and color; and
/// border colors set on single cells.
pub struct GridConfig {
    pub paddings: Vec<(Entity, Padding)>,
    pub horizontal: Vec<(Entity, AlignmentHorizontal)>,
    pub vertical: Vec<(Entity, AlignmentVertical)>,
    pub style: Style,
    pub border_color: Color,
    pub cell_colors: Vec<(usize, usize, Color)>,
}

/// Whether `(r, c)` is among the first `k` positions of `ps`.
pub open spec fn listed(ps: Seq<(usize, usize)>, k: int, r: int, c: int) -> bool {
    exists|j: int| 0 <= j < k && ps[j].0 == r && ps[j].1 == c
}

/// The border color set last on cell `(r, c)`, if any.
pub open spec fn color_set_at(entries: Seq<(usize, usize, Color)>, r: int, c: int) -> Option<Color>
    decreases entries.len(),
{
    if entries.len() == 0 {
        None
    } else if entries.last().0 == r && entries.last().1 == c {
        Some(entries.last().2)
    } else {
        color_set_at(entries.drop_last(), r, c)
    }
}

impl GridConfig {
    /// Every padding ever set is within bounds.
    pub open spec fn wf(&self) -> bool {
        forall|k: int| 0 <= k < self.paddings@.len() ==> (#[trigger] self.paddings@[k]).1.wf()
    }

    /// The default configuration: one column of space on each side, centered
    /// on the top line, in the ASCII style, uncolored.
    pub fn new() -> (r: GridConfig)
        ensures
            r.wf(),
            r.paddings@.len() == 0,
            r.horizontal@.len() == 0,
            r.vertical@.len() == 0,
            r.style == ascii_style(),
            r.border_color.prefix@.len() == 0,
            r.border_color.suffix@.len() == 0,
            r.cell_colors@.len() == 0,
    {
        GridConfig {
            paddings: Vec::new(),
            horizontal: Vec::new(),
            vertical: Vec::new(),
            style: Style::ascii(),
            border_color: Color::none(),
            cell_colors: Vec::new(),
        }
    }

    /// Sets the padding of every cell `entity` selects.
    pub fn set_padding(&mut self, entity: Entity, padding: Padding)
        requires
            padding.wf(),
            old(self).wf(),
        ensures
            final(self).wf(),
            final(self).paddings@ == old(self).paddings@.push((entity, padding)),
            final(self).horizontal@ == old(self).horizontal@,
            final(self).vertical@ == old(self).vertical@,
            final(self).style == old(self).style,
            final(self).border_color == old(self).border_color,
            final(self).cell_colors@ == old(self).cell_colors@,
    {
        self.paddings.push((entity, padding));
    }

    /// Sets the horizontal alignment of every cell `entity` selects.
    pub fn set_alignment_horizontal(&mut self, entity: Entity, a: AlignmentHorizontal)
        ensures
            final(self).horizontal@ == old(self).horizontal@.push((entity, a)),
            final(self).paddings@ == old(self).paddings@,
            final(self).vertical@ == old(self).vertical@,
            final(self).style == old(self).style,
            final(self).border_color == old(self).border_color,
            final(self).cell_colors@ == old(self).cell_colors@,
    {
        self.horizontal.push((entity, a));
    }

    /// Sets the vertical alignment of every cell `entity` selects.
    pub fn set_alignment_vertical(&mut self, entity: Entity, a: AlignmentVertical)
        ensures
            final(self).vertical@ == old(self).vertical@.push((entity, a)),
            final(self).paddings@ == old(self).paddings@,
            final(self).horizontal@ == old(self).horizontal@,
            final(self).style == old(self).style,
            final(self).border_color == old(self).border_color,
            final(self).cell_colors@ == old(self).cell_colors@,
    {
        self.vertical.push((entity, a));
    }

    /// Replaces the border style.
    pub fn set_style(&mut self, style: Style)
        ensures
            final(self).style == style,
            final(self).paddings@ == old(self).paddings@,
            final(self).horizontal@ == old(self).horizontal@,
            final(self).vertical@ == old(self).vertical@,
            final(self).border_color == old(self).border_color,
            final(self).cell_colors@ == old(self).cell_colors@,
    {
        self.style = style;
    }

    /// Colors every border character.
    pub fn set_border_color(&mut self, color: Color)
        ensures
            final(self).border_color == color,
            final(self).paddings@ == old(self).paddings@,
            final(self).horizontal@ == old(self).horizontal@,
            final(self).vertical@ == old(self).vertical@,
            final(self).style == old(self).style,
            final(self).cell_colors@ == old(self).cell_colors@,
    {
        self.border_color = color;
    }

    /// Colors the borders of every cell that `entity` selects in a grid of
    /// `rows` by `cols`, resolved now: cells added later are not colored.
    pub fn set_cell_border_color(&mut self, entity: Entity, color: &Color, rows: usize, cols: usize)
        ensures
            final(self).paddings@ == old(self).paddings@,
            final(self).horizontal@ == old(self).horizontal@,
            final(self).vertical@ == old(self).vertical@,
            final(self).style == old(self).style,
            final(self).border_color == old(self).border_color,
            forall|r: int, c: int|
                #![trigger color_set_at(final(self).cell_colors@, r, c)]
                if 0 <= r < rows && 0 <= c < cols && entity.covers(r, c) {
                    color_set_at(final(self).cell_colors@, r, c) matches Some(k) && k.prefix@
                        == color.prefix@ && k.suffix@ == color.suffix@
                } else {
                    color_set_at(final(self).cell_colors@, r, c) == color_set_at(
                        old(self).cell_colors@,
                        r,
                        c,
                    )
                },
    {
        let ghost start = self.cell_colors@;
        let ps = entity.positions(rows, cols);
        let mut k: usize = 0;
        while k < ps.len()
            invariant
                k <= ps@.len(),
                self.paddings@ == old(self).paddings@,
                self.horizontal@ == old(self).horizontal@,
                self.vertical@ == old(self).vertical@,
                self.style == old(self).style,
                self.border_color == old(self).border_color,
                forall|j: int|
                    0 <= j < ps@.len() ==> ps@[j].0 < rows && ps@[j].1 < cols && entity.covers(
                        ps@[j].0 as int,
                        ps@[j].1 as int,
                    ),
                forall|i: usize, j: usize|
                    i < rows && j < cols && entity.covers(i as int, j as int) ==> ps@.contains((i, j)),
                forall|r: int, c: int|
                    #![trigger color_set_at(self.cell_colors@, r, c)]
                    if listed(ps@, k as int, r, c) {
                        color_set_at(self.cell_colors@, r, c) matches Some(x) && x.prefix@
                            == color.prefix@ && x.suffix@ == color.suffix@
                    } else {
                        color_set_at(self.cell_colors@, r, c) == color_set_at(start, r, c)
                    },
            decreases ps@.len() - k,
        {
            let (r, c) = ps[k];
            let ghost before = self.cell_colors@;
            let d = color.duplicate();
            let ghost dv = d;
            self.cell_colors.push((r, c, d));
            proof {
                assert(self.cell_colors@.drop_last() =~= before);
                assert(self.cell_colors@.last() == (r, c, dv));
                assert forall|a: int, b: int|
                    #![trigger color_set_at(self.cell_colors@, a, b)]
                    listed(ps@, k + 1, a, b) implies (color_set_at(self.cell_colors@, a, b) matches Some(x)
                    && x.prefix@ == color.prefix@ && x.suffix@ == color.suffix@) by {
                    assert(color_set_at(self.cell_colors@, a, b) == if a == r && b == c {
                        Some(dv)
                    } else {
                        color_set_at(before, a, b)
                    });
                    if a == r && b == c {
                    } else {
                        let j = choose|j: int| 0 <= j < k + 1 && ps@[j].0 == a && ps@[j].1 == b;
                        assert(j != k);
                        assert(listed(ps@, k as int, a, b));
                    }
                }
                assert forall|a: int, b: int|
                    #![trigger color_set_at(self.cell_colors@, a, b)]
                    !listed(ps@, k + 1, a, b) implies color_set_at(self.cell_colors@, a, b)
                    == color_set_at(start, a, b) by {
                    assert(color_set_at(self.cell_colors@, a, b) == if a == r && b == c {
                        Some(dv)
                    } else {
                        color_set_at(before, a, b)
                    });
                    if a == r && b == c {
                        assert(ps@[k as int].0 == a && ps@[k as int].1 == b);
                    }
                    if listed(ps@, k as int, a, b) {
                        let j = choose|j: int| 0 <= j < k && ps@[j].0 == a && ps@[j].1 == b;
                        assert(0 <= j < k + 1 && ps@[j].0 == a && ps@[j].1 == b);
                    }
                }
            }
            k = k + 1;
        }
        proof {
            assert forall|r: int, c: int|
                0 <= r < rows && 0 <= c < cols && entity.covers(r, c) implies listed(
                ps@,
                ps@.len() as int,
                r,
                c,
            ) by {
                assert(ps@.contains((r as usize, c as usize)));
                let j = choose|j: int| 0 <= j < ps@.len() && ps@[j] == (r as usize, c as usize);
                assert(ps@[j].0 == r && ps@[j].1 == c);
            }
            assert forall|r: int, c: int|
                listed(ps@, ps@.len() as int, r, c) implies 0 <= r < rows && 0 <= c < cols
                && entity.covers(r, c) by {
                let j = choose|j: int| 0 <= j < ps@.len() && ps@[j].0 == r && ps@[j].1 == c;
                assert(ps@[j].0 < rows && ps@[j].1 < cols);
            }
        }
    }

    /// The padding in force at `(row, col)`.
    pub open spec fn padding_at(&self, row: int, col: int) -> Padding {
        crate::entity::resolve(self.paddings@, row, col, default_padding())
    }

    /// The horizontal alignment in force at `(row, col)`; centered by default.
    pub open spec fn horizontal_at(&self, row: int, col: int) -> AlignmentHorizontal {
        crate::entity::resolve(self.horizontal@, row, col, AlignmentHorizontal::Center)
    }

    /// The vertical alignment in force at `(row, col)`; top by default.
    pub open spec fn vertical_at(&self, row: int, col: int) -> AlignmentVertical {
        crate::entity::resolve(self.vertical@, row, col, AlignmentVertical::Top)
    }
}

} // verus!
