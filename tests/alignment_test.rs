use gridtext::{
    render, AlignmentHorizontal, AlignmentVertical, Entity, Grid, GridConfig, Padding, Style,
};

fn rows(data: &[[&str; 3]]) -> Vec<Vec<String>> {
    let mut out = vec![vec![
        "id".to_string(),
        "destribution".to_string(),
        "link".to_string(),
    ]];
    for r in data {
        out.push(r.iter().map(|s| s.to_string()).collect());
    }
    out
}

#[test]
fn full_alignment() {
    let data = rows(&[
        ["0", "Fedora", "https://getfedora.org/"],
        ["2", "OpenSUSE", "https://www.opensuse.org/"],
        ["3", "Endeavouros", "https://endeavouros.com/"],
    ]);

    let expected = [
        "id|destribution|link                     \n",
        "--+------------+-------------------------\n",
        "0 |Fedora      |https://getfedora.org/   \n",
        "2 |OpenSUSE    |https://www.opensuse.org/\n",
        "3 |Endeavouros |https://endeavouros.com/ \n",
    ]
    .concat();

    let grid = Grid::new(&data);
    let mut cfg = GridConfig::new();
    cfg.set_style(Style::psql());
    cfg.set_alignment_horizontal(Entity::Global, AlignmentHorizontal::Left);
    cfg.set_padding(Entity::Global, Padding::zero());
    let table = render(&grid, &cfg);

    assert_eq!(table, expected);
}

#[test]
fn head_and_data_alignment() {
    let data = rows(&[
        ["0", "Fedora", "https://getfedora.org/"],
        ["2", "OpenSUSE", "https://www.opensuse.org/"],
        ["3", "Endeavouros", "https://endeavouros.com/"],
    ]);

    let expected = [
        "+--+------------+-------------------------+\n",
        "|id|destribution|link                     |\n",
        "+--+------------+-------------------------+\n",
        "| 0|      Fedora|   https://getfedora.org/|\n",
        "+--+------------+-------------------------+\n",
        "| 2|    OpenSUSE|https://www.opensuse.org/|\n",
        "+--+------------+-------------------------+\n",
        "| 3| Endeavouros| https://endeavouros.com/|\n",
        "+--+------------+-------------------------+\n",
    ]
    .concat();

    let grid = Grid::new(&data);
    let mut cfg = GridConfig::new();
    cfg.set_style(Style::ascii());
    cfg.set_alignment_horizontal(Entity::Row(0), AlignmentHorizontal::Left);
    cfg.set_padding(Entity::Row(0), Padding::zero());
    for r in 1..grid.count_rows() {
        cfg.set_alignment_horizontal(Entity::Row(r), AlignmentHorizontal::Right);
        cfg.set_padding(Entity::Row(r), Padding::zero());
    }
    let table = render(&grid, &cfg);

    assert_eq!(table, expected);
}

#[test]
fn full_alignment_multiline() {
    let data = rows(&[
        ["0", "Fedora", "https://getfedora.org/"],
        ["2", "OpenSUSE", "https://www.opensuse.org/"],
        ["3", "Endeavouros", "https://endeavouros.com/"],
        ["4", "Red\nHat", "https\n://\nwww\n.\nredhat\n.\ncom\n/en"],
    ]);

    let expected = [
        "id|destribution|link                     \n",
        "--+------------+-------------------------\n",
        "0 |Fedora      |https://getfedora.org/   \n",
        "2 |OpenSUSE    |https://www.opensuse.org/\n",
        "3 |Endeavouros |https://endeavouros.com/ \n",
        "4 |Red         |https                    \n",
        "  |Hat         |://                      \n",
        "  |            |www                      \n",
        "  |            |.                        \n",
        "  |            |redhat                   \n",
        "  |            |.                        \n",
        "  |            |com                      \n",
        "  |            |/en                      \n",
    ]
    .concat();

    let grid = Grid::new(&data);
    let mut cfg = GridConfig::new();
    cfg.set_style(Style::psql());
    cfg.set_alignment_horizontal(Entity::Global, AlignmentHorizontal::Left);
    cfg.set_padding(Entity::Global, Padding::zero());
    let table = render(&grid, &cfg);

    assert_eq!(table, expected);
}

#[test]
fn vertical_alignment_test() {
    let data = rows(&[
        ["0", "Fedora", "https://getfedora.org/"],
        ["2", "OpenSUSE", "https://www.opensuse.org/"],
        ["3", "E\nnde\navou\nros", "https://endeavouros.com/"],
        ["4", "Red\nHat", "https\n://\nwww\n.\nredhat\n.\ncom\n/en"],
    ]);

    let expected = [
        " id |destribution|link                     \n",
        "----+------------+-------------------------\n",
        " 0  |Fedora      |https://getfedora.org/   \n",
        " 2  |OpenSUSE    |https://www.opensuse.org/\n",
        " 3  |E           |                         \n",
        "    |nde         |                         \n",
        "    |avou        |                         \n",
        "    |ros         |https://endeavouros.com/ \n",
        " 4  |            |https                    \n",
        "    |            |://                      \n",
        "    |            |www                      \n",
        "    |            |.                        \n",
        "    |            |redhat                   \n",
        "    |            |.                        \n",
        "    |Red         |com                      \n",
        "    |Hat         |/en                      \n",
    ]
    .concat();

    let grid = Grid::new(&data);
    let mut cfg = GridConfig::new();
    cfg.set_style(Style::psql());
    for c in 1..grid.count_cols() {
        cfg.set_alignment_vertical(Entity::Column(c), AlignmentVertical::Bottom);
        cfg.set_alignment_horizontal(Entity::Column(c), AlignmentHorizontal::Left);
        cfg.set_padding(Entity::Column(c), Padding::zero());
    }
    let table = render(&grid, &cfg);

    assert_eq!(table, expected);
}
