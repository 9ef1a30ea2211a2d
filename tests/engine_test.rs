use gridtext::compose::align_text;
use gridtext::estimate::{column_widths, row_heights};
use gridtext::span::spread_span;
use gridtext::text::{chars_of, lines_of};
use gridtext::width::display_width;
use gridtext::{
    render, AlignmentHorizontal, AlignmentVertical, Color, Entity, Grid, GridConfig, Padding,
    Style,
};

fn grid(rows: &[&[&str]]) -> Grid {
    let data: Vec<Vec<String>> = rows
        .iter()
        .map(|r| r.iter().map(|s| s.to_string()).collect())
        .collect();
    Grid::new(&data)
}

fn aligned(line: &str, width: usize, h: AlignmentHorizontal) -> String {
    align_text(&chars_of(line), width, h, ' ')
        .unwrap()
        .into_iter()
        .collect()
}

#[test]
fn repeated_renders_are_identical() {
    let g = grid(&[&["a", "bb"], &["ccc", "d\ne"]]);
    let mut cfg = GridConfig::new();
    cfg.set_style(Style::pseudo());
    cfg.set_alignment_horizontal(Entity::Column(1), AlignmentHorizontal::Right);
    let first = render(&g, &cfg);
    let second = render(&g, &cfg);
    assert_eq!(first, second);
}

#[test]
fn widths_stable_on_aligned_content() {
    let g = grid(&[&["id", "name"], &["10", "x"], &["7", "longer"]]);
    let cfg = GridConfig::new();
    let widths = column_widths(&g, &cfg);
    assert_eq!(widths, vec![4, 8]);
    let realigned = grid(&[&["id", " name "], &["10", "  x   "], &["7 ", "longer"]]);
    assert_eq!(column_widths(&realigned, &cfg), widths);
}

#[test]
fn span_shortfall_shared_exactly() {
    let mut widths = vec![2, 3, 4, 9];
    spread_span(&mut widths, 0, 3, 1, 15);
    assert_eq!(widths, vec![4, 4, 5, 9]);
    assert_eq!(widths[0] + widths[1] + widths[2] + 2, 15);
}

#[test]
fn span_already_wide_enough() {
    let mut widths = vec![5, 5, 5];
    spread_span(&mut widths, 1, 2, 1, 6);
    assert_eq!(widths, vec![5, 5, 5]);
}

#[test]
fn span_single_column() {
    let mut widths = vec![1, 2];
    spread_span(&mut widths, 1, 1, 3, 7);
    assert_eq!(widths, vec![1, 7]);
}

#[test]
fn alignment_pads_on_the_right_side() {
    assert_eq!(aligned("ab", 5, AlignmentHorizontal::Left), "ab   ");
    assert_eq!(aligned("ab", 5, AlignmentHorizontal::Right), "   ab");
    assert_eq!(aligned("ab", 5, AlignmentHorizontal::Center), " ab  ");
    assert_eq!(aligned("ab", 2, AlignmentHorizontal::Center), "ab");
    assert_eq!(align_text(&chars_of("abc"), 2, AlignmentHorizontal::Left, ' '), None);
}

#[test]
fn wide_characters_count_twice() {
    assert_eq!(display_width(&chars_of("日本")), 4);
    assert_eq!(display_width(&chars_of("ab")), 2);
    assert_eq!(display_width(&chars_of("e\u{301}")), 1);
    assert_eq!(aligned("日", 5, AlignmentHorizontal::Center), " 日  ");
}

#[test]
fn wide_characters_in_a_table() {
    let g = grid(&[&["日本", "a"]]);
    let cfg = GridConfig::new();
    let expected = ["+------+---+\n", "| 日本 | a |\n", "+------+---+\n"].concat();
    assert_eq!(render(&g, &cfg), expected);
}

#[test]
fn empty_grid_renders_nothing() {
    let g = Grid::new(&Vec::new());
    assert_eq!(render(&g, &GridConfig::new()), "");
    let no_cols = Grid::new(&vec![Vec::new(), Vec::new()]);
    assert_eq!(no_cols.count_rows(), 2);
    assert_eq!(no_cols.count_cols(), 0);
    assert_eq!(render(&no_cols, &GridConfig::new()), "");
}

#[test]
fn cell_setting_beats_later_global_one() {
    let g = grid(&[&["a", "b"]]);
    let mut cfg = GridConfig::new();
    cfg.set_padding(Entity::Cell(0, 0), Padding::new(0, 0, 3, 0));
    cfg.set_padding(Entity::Global, Padding::zero());
    cfg.set_alignment_horizontal(Entity::Cell(0, 1), AlignmentHorizontal::Right);
    cfg.set_alignment_horizontal(Entity::Global, AlignmentHorizontal::Left);
    let expected = ["+----+-+\n", "|   a|b|\n", "+----+-+\n"].concat();
    assert_eq!(render(&g, &cfg), expected);
}

#[test]
fn row_and_column_last_applied_wins() {
    let g = grid(&[&["a", "b"], &["c", "d"]]);
    let mut cfg = GridConfig::new();
    cfg.set_style(Style::psql());
    cfg.set_padding(Entity::Global, Padding::zero());
    cfg.set_padding(Entity::Row(0), Padding::new(0, 0, 1, 0));
    cfg.set_padding(Entity::Column(0), Padding::new(0, 0, 0, 1));
    let expected = ["a | b\n", "--+--\n", "c |d \n"].concat();
    assert_eq!(render(&g, &cfg), expected);
}

#[test]
fn end_to_end_three_by_three() {
    let g = grid(&[&["a", "b", "c"], &["d", "e", "f"], &["g", "h", "i"]]);
    let mut cfg = GridConfig::new();
    cfg.set_style(Style::ascii());
    let expected = [
        "+---+---+---+\n",
        "| a | b | c |\n",
        "+---+---+---+\n",
        "| d | e | f |\n",
        "+---+---+---+\n",
        "| g | h | i |\n",
        "+---+---+---+\n",
    ]
    .concat();
    assert_eq!(render(&g, &cfg), expected);
}

#[test]
fn vertical_center_puts_extra_line_below() {
    let g = grid(&[&["x", "1\n2\n3\n4"]]);
    let mut cfg = GridConfig::new();
    cfg.set_style(Style::psql());
    cfg.set_alignment_vertical(Entity::Column(0), AlignmentVertical::Center);
    let expected = ["   | 1 \n", " x | 2 \n", "   | 3 \n", "   | 4 \n"].concat();
    assert_eq!(render(&g, &cfg), expected);
}

#[test]
fn top_and_bottom_padding_add_blank_lines() {
    let g = grid(&[&["x"]]);
    let mut cfg = GridConfig::new();
    cfg.set_padding(Entity::Global, Padding::new(1, 1, 0, 0));
    let expected = ["+-+\n", "| |\n", "|x|\n", "| |\n", "+-+\n"].concat();
    assert_eq!(render(&g, &cfg), expected);
    assert_eq!(row_heights(&g, &cfg), vec![3]);
}

#[test]
fn short_rows_are_completed() {
    let g = grid(&[&["a", "b"], &["c"]]);
    assert_eq!(g.count_cols(), 2);
    let mut cfg = GridConfig::new();
    cfg.set_style(Style::psql());
    let expected = [" a | b \n", "---+---\n", " c |   \n"].concat();
    assert_eq!(render(&g, &cfg), expected);
}

#[test]
fn text_splits_on_newlines() {
    let lines = lines_of(&chars_of("a\n\nbc\n"));
    let expect: Vec<Vec<char>> = vec![vec!['a'], vec![], vec!['b', 'c'], vec![]];
    assert_eq!(lines, expect);
    assert_eq!(lines_of(&chars_of("")), vec![Vec::<char>::new()]);
}

#[test]
fn entity_positions_in_order() {
    assert_eq!(Entity::Column(1).positions(3, 2), vec![(0, 1), (1, 1), (2, 1)]);
    assert_eq!(Entity::Row(1).positions(3, 2), vec![(1, 0), (1, 1)]);
    assert_eq!(
        Entity::Global.positions(2, 2),
        vec![(0, 0), (0, 1), (1, 0), (1, 1)]
    );
    assert_eq!(Entity::Cell(5, 0).positions(3, 2), Vec::new());
    assert_eq!(Entity::Row(3).positions(3, 2), Vec::new());
}

#[test]
fn color_holds_its_escape_sequences() {
    let c = Color::new("\u{1b}[31m".to_string(), "\u{1b}[39m".to_string());
    assert_eq!(c.prefix, vec!['\u{1b}', '[', '3', '1', 'm']);
    assert_eq!(c.suffix, vec!['\u{1b}', '[', '3', '9', 'm']);
    assert_eq!(c.duplicate(), c);
}

#[test]
fn global_border_color_wraps_border_pieces() {
    let g = grid(&[&["a"]]);
    let mut cfg = GridConfig::new();
    cfg.set_border_color(Color::new("<".to_string(), ">".to_string()));
    let expected = ["<+><---><+>\n", "<|> a <|>\n", "<+><---><+>\n"].concat();
    assert_eq!(render(&g, &cfg), expected);
}

#[test]
fn cell_border_color_wraps_its_own_edges() {
    let g = grid(&[&["a", "b"]]);
    let mut cfg = GridConfig::new();
    let color = Color::new("<".to_string(), ">".to_string());
    cfg.set_cell_border_color(Entity::Cell(0, 1), &color, 1, 2);
    let expected = [
        "+---<+><---><+>\n",
        "| a <|> b <|>\n",
        "+---<+><---><+>\n",
    ]
    .concat();
    assert_eq!(render(&g, &cfg), expected);
}

#[test]
fn cell_border_color_out_of_range_is_ignored() {
    let g = grid(&[&["a"]]);
    let mut cfg = GridConfig::new();
    let color = Color::new("<".to_string(), ">".to_string());
    cfg.set_cell_border_color(Entity::Row(4), &color, 1, 1);
    assert_eq!(render(&g, &cfg), ["+---+\n", "| a |\n", "+---+\n"].concat());
}

#[test]
fn github_markdown_lines() {
    let g = grid(&[&["h"], &["v"]]);
    let mut cfg = GridConfig::new();
    cfg.set_style(Style::github_markdown());
    assert_eq!(render(&g, &cfg), ["| h |\n", "|---|\n", "| v |\n"].concat());
}

#[test]
fn padding_fill_character_fills_blank_space() {
    let g = grid(&[&["ab", "c"], &["d", "e\nf"]]);
    let mut cfg = GridConfig::new();
    cfg.set_style(Style::psql());
    cfg.set_padding(Entity::Global, Padding::new(0, 0, 1, 1).with_fill('.'));
    let expected = [".ab.|.c.\n", "----+---\n", ".d..|.e.\n", "....|.f.\n"].concat();
    assert_eq!(render(&g, &cfg), expected);
    let centered = align_text(&chars_of("x"), 4, AlignmentHorizontal::Center, '*').unwrap();
    assert_eq!(centered, vec!['*', 'x', '*', '*']);
}
