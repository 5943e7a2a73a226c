use pinax::{BorderStyle, Grid, Panel};

#[test]
fn one_cell_grid_centres_its_text() {
    let mut g = Grid::builder().dimensions(1, 1).build();
    g.set(0, 0, "hi");
    let rule = "─".repeat(20);
    let expected = format!("┌{}┐\n│{}hi{}│\n└{}┘\n", rule, " ".repeat(9), " ".repeat(9), rule);
    assert_eq!(g.render(), expected);
}

#[test]
fn grid_rows_and_rules_alternate() {
    let mut g = Grid::builder().dimensions(2, 3).style(BorderStyle::Double).build();
    g.set(0, 0, "1");
    g.set(1, 2, "Center");
    let out = g.render();
    let lines: Vec<&str> = out.lines().collect();
    assert_eq!(lines.len(), 5);
    let rule = "═".repeat(20);
    assert_eq!(lines[0], format!("╔{}╦{}╦{}╗", rule, rule, rule));
    assert_eq!(lines[2], format!("╠{}╬{}╬{}╣", rule, rule, rule));
    assert_eq!(lines[4], format!("╚{}╩{}╩{}╝", rule, rule, rule));
    let blank = " ".repeat(20);
    assert_eq!(lines[1], format!("║{}1{}║{}║{}║", " ".repeat(9), " ".repeat(10), blank, blank));
    assert_eq!(lines[3], format!("║{}║{}║{}Center{}║", blank, blank, " ".repeat(7), " ".repeat(7)));
}

#[test]
fn grid_dimensions_give_rows_and_rules() {
    for (r, c) in [(1usize, 1usize), (2, 2), (3, 4), (5, 1)] {
        let g = Grid::builder().dimensions(r, c).build();
        let out = g.render();
        let lines: Vec<&str> = out.lines().collect();
        let data = lines.iter().filter(|l| l.starts_with('│')).count();
        let rules = lines.len() - data;
        assert_eq!(data, r);
        assert_eq!(rules, r + 1);
    }
}

#[test]
fn grid_set_out_of_range_does_nothing() {
    let mut g = Grid::builder().dimensions(2, 2).build();
    g.set(1, 1, "x");
    let before = g.render();
    g.set(2, 0, "y");
    g.set(0, 2, "z");
    assert_eq!(g.render(), before);
    assert_eq!(g.render(), g.render());
}

#[test]
fn panel_wraps_greedily() {
    let p = Panel::new("aaaa bbbb cccc").with_width(13);
    assert_eq!(p.wrap_text("aaaa bbbb cccc"), vec!["aaaa bbbb".to_string(), "cccc".to_string()]);
    let q = Panel::new("").with_width(12);
    assert_eq!(q.wrap_text("aaaa bbbb cccc"), vec!["aaaa".to_string(), "bbbb".to_string(), "cccc".to_string()]);
}

#[test]
fn panel_keeps_line_breaks_and_empty_lines() {
    let p = Panel::new("");
    assert_eq!(p.wrap_text("a\n\nb"), vec!["a".to_string(), String::new(), "b".to_string()]);
    assert_eq!(p.wrap_text("a\r\nb\n"), vec!["a".to_string(), "b".to_string()]);
    assert_eq!(p.wrap_text(""), Vec::<String>::new());
    assert_eq!(p.wrap_text("  "), vec![String::new()]);
    assert_eq!(p.wrap_text("a\n   \nb"), vec!["a".to_string(), String::new(), "b".to_string()]);
}

#[test]
fn panel_wraps_by_display_width() {
    let p = Panel::new("").with_width(9);
    assert_eq!(p.wrap_text("😀😀 ab"), vec!["😀😀".to_string(), "ab".to_string()]);
    assert_eq!(p.wrap_text("abcdefghijkl x"), vec!["abcdefghijkl".to_string(), "x".to_string()]);
}

#[test]
fn display_width_counts_wide_characters_twice() {
    assert_eq!(Panel::get_display_width("a😀"), 3);
    assert_eq!(Panel::get_display_width("abc"), 3);
    assert_eq!(Panel::get_display_width("☀✅、"), 6);
    assert!(Panel::contains_wide_chars("a😀"));
    assert!(!Panel::contains_wide_chars("abc é"));
}

#[test]
fn plain_panel_renders() {
    let p = Panel::new("hi").with_width(10);
    assert_eq!(p.render(), "┌────────┐\n│ hi     │\n└────────┘\n");
}

#[test]
fn titled_panel_centres_the_title() {
    let p = Panel::new("hi").with_title("T").with_width(12).with_style(BorderStyle::Rounded);
    assert_eq!(p.render(), "╭──[ T ]───╮\n│ hi       │\n╰──────────╯\n");
}

#[test]
fn long_title_is_cut_with_an_ellipsis() {
    let p = Panel::new("").with_title("abcdefghij").with_width(12);
    assert_eq!(p.render(), "┌[ abc... ]┐\n└──────────┘\n");
}

#[test]
fn narrow_panel_width_is_raised() {
    let p = Panel::new("").with_width(3);
    assert_eq!(p.render(), "┌───────┐\n└───────┘\n");
}

#[test]
fn wide_characters_are_padded_by_display_width() {
    let p = Panel::new("😀 ok").with_width(12);
    assert_eq!(p.render(), "┌──────────┐\n│ 😀 ok    │\n└──────────┘\n");
    assert_eq!(p.render(), p.render());
}

#[test]
fn blank_line_stays_inside_the_panel() {
    let p = Panel::new("      ").with_width(9);
    assert_eq!(p.wrap_text("      "), vec![String::new()]);
    assert_eq!(p.render(), "┌───────┐\n│       │\n└───────┘\n");
}
