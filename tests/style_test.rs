use gridtext::{render, Grid, GridConfig, Line, Style};

fn linux() -> Vec<Vec<String>> {
    let rows = [
        ["id", "destribution", "link"],
        ["0", "Fedora", "https://getfedora.org/"],
        ["2", "OpenSUSE", "https://www.opensuse.org/"],
        ["3", "Endeavouros", "https://endeavouros.com/"],
    ];
    rows.iter()
        .map(|r| r.iter().map(|s| s.to_string()).collect())
        .collect()
}

#[test]
fn default_style() {
    let expected = [
        "+----+--------------+---------------------------+\n",
        "| id | destribution |           link            |\n",
        "+----+--------------+---------------------------+\n",
        "| 0  |    Fedora    |  https://getfedora.org/   |\n",
        "+----+--------------+---------------------------+\n",
        "| 2  |   OpenSUSE   | https://www.opensuse.org/ |\n",
        "+----+--------------+---------------------------+\n",
        "| 3  | Endeavouros  | https://endeavouros.com/  |\n",
        "+----+--------------+---------------------------+\n",
    ].concat();

    let grid = Grid::new(&linux());
    let mut cfg = GridConfig::new();
    cfg.set_style(Style::ascii());
    let table = render(&grid, &cfg);

    assert_eq!(table, expected);
}

#[test]
fn psql_style() {
    let expected = [
        " id | destribution |           link            \n",
        "----+--------------+---------------------------\n",
        " 0  |    Fedora    |  https://getfedora.org/   \n",
        " 2  |   OpenSUSE   | https://www.opensuse.org/ \n",
        " 3  | Endeavouros  | https://endeavouros.com/  \n",
    ].concat();

    let grid = Grid::new(&linux());
    let mut cfg = GridConfig::new();
    cfg.set_style(Style::psql());
    let table = render(&grid, &cfg);

    assert_eq!(table, expected);
}

#[test]
fn github_markdown_style() {
    let expected = [
        "| id | destribution |           link            |\n",
        "|----+--------------+---------------------------|\n",
        "| 0  |    Fedora    |  https://getfedora.org/   |\n",
        "| 2  |   OpenSUSE   | https://www.opensuse.org/ |\n",
        "| 3  | Endeavouros  | https://endeavouros.com/  |\n",
    ].concat();

    let grid = Grid::new(&linux());
    let mut cfg = GridConfig::new();
    cfg.set_style(Style::github_markdown());
    let table = render(&grid, &cfg);

    assert_eq!(table, expected);
}

#[test]
fn pseudo_style() {
    let expected = [
        "┌────┬──────────────┬───────────────────────────┐\n",
        "│ id │ destribution │           link            │\n",
        "├────┼──────────────┼───────────────────────────┤\n",
        "│ 0  │    Fedora    │  https://getfedora.org/   │\n",
        "├────┼──────────────┼───────────────────────────┤\n",
        "│ 2  │   OpenSUSE   │ https://www.opensuse.org/ │\n",
        "├────┼──────────────┼───────────────────────────┤\n",
        "│ 3  │ Endeavouros  │ https://endeavouros.com/  │\n",
        "└────┴──────────────┴───────────────────────────┘\n",
    ].concat();

    let grid = Grid::new(&linux());
    let mut cfg = GridConfig::new();
    cfg.set_style(Style::pseudo());
    let table = render(&grid, &cfg);

    assert_eq!(table, expected);
}

#[test]
fn pseudo_clean_style() {
    let expected = [
        "┌────┬──────────────┬───────────────────────────┐\n",
        "│ id │ destribution │           link            │\n",
        "├────┼──────────────┼───────────────────────────┤\n",
        "│ 0  │    Fedora    │  https://getfedora.org/   │\n",
        "│ 2  │   OpenSUSE   │ https://www.opensuse.org/ │\n",
        "│ 3  │ Endeavouros  │ https://endeavouros.com/  │\n",
        "└────┴──────────────┴───────────────────────────┘\n",
    ].concat();

    let grid = Grid::new(&linux());
    let mut cfg = GridConfig::new();
    cfg.set_style(Style::pseudo_clean());
    let table = render(&grid, &cfg);

    assert_eq!(table, expected);
}

#[test]
fn noborder_style() {
    let expected = [
        " id   destribution             link            \n",
        " 0       Fedora       https://getfedora.org/   \n",
        " 2      OpenSUSE     https://www.opensuse.org/ \n",
        " 3    Endeavouros    https://endeavouros.com/  \n",
    ].concat();

    let grid = Grid::new(&linux());
    let mut cfg = GridConfig::new();
    cfg.set_style(Style::noborder());
    let table = render(&grid, &cfg);

    assert_eq!(table, expected);
}

#[test]
fn style_head_changes() {
    let expected = [
        "┌────┬──────────────┬───────────────────────────┐\n",
        "│ id │ destribution │           link            │\n",
        "│ 0  │    Fedora    │  https://getfedora.org/   │\n",
        "│ 2  │   OpenSUSE   │ https://www.opensuse.org/ │\n",
        "│ 3  │ Endeavouros  │ https://endeavouros.com/  │\n",
        "└────┴──────────────┴───────────────────────────┘\n",
    ].concat();

    let grid = Grid::new(&linux());
    let mut cfg = GridConfig::new();
    cfg.set_style(Style::pseudo_clean().header(None));
    let table = render(&grid, &cfg);

    assert_eq!(table, expected);
}

#[test]
fn style_frame_changes() {
    let expected = [
        "│ id │ destribution │           link            │\n",
        "├────┼──────────────┼───────────────────────────┤\n",
        "│ 0  │    Fedora    │  https://getfedora.org/   │\n",
        "│ 2  │   OpenSUSE   │ https://www.opensuse.org/ │\n",
        "│ 3  │ Endeavouros  │ https://endeavouros.com/  │\n",
    ].concat();

    let grid = Grid::new(&linux());
    let mut cfg = GridConfig::new();
    cfg.set_style(Style::pseudo_clean().frame_bottom(None).frame_top(None));
    let table = render(&grid, &cfg);

    assert_eq!(table, expected);
}

#[test]
fn custom_style() {
    let expected = [
        " id \' destribution \'           link            \n",
        "````\'``````````````\'```````````````````````````\n",
        " 0  \'    Fedora    \'  https://getfedora.org/   \n",
        "````\'``````````````\'```````````````````````````\n",
        " 2  \'   OpenSUSE   \' https://www.opensuse.org/ \n",
        "````\'``````````````\'```````````````````````````\n",
        " 3  \' Endeavouros  \' https://endeavouros.com/  \n",
        "****\'**************\'***************************\n",
    ].concat();

    let grid = Grid::new(&linux());
    let mut cfg = GridConfig::new();
    cfg.set_style(
        Style::noborder()
            .frame_bottom(Some(Line::short('*', '\'')))
            .split(Some(Line::short('`', '\'')))
            .inner('\''),
    );
    let table = render(&grid, &cfg);

    assert_eq!(table, expected);
}
