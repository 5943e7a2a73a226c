use pinax::column::Column;
use pinax::{Alignment, BorderStyle, Table};

fn small_table() -> Table {
    Table::builder()
        .add_column(Column::new("ID"))
        .add_column(Column::new("Name"))
        .style(BorderStyle::Single)
        .build()
}

#[test]
fn table_renders_with_final_widths() {
    let mut t = small_table();
    t.add_row(vec!["1".to_string(), "Alice".to_string()]);
    let expected = "┌──────┬─────────┐\n\
                    │ ID   │ Name    │\n\
                    ├──────┼─────────┤\n\
                    │ 1    │ Alice   │\n\
                    └──────┴─────────┘\n";
    assert_eq!(t.render(), expected);
}

#[test]
fn table_without_rows_uses_initial_widths() {
    let t = small_table();
    let expected = "┌──────┬────────┐\n\
                    │ ID   │ Name   │\n\
                    ├──────┼────────┤\n\
                    └──────┴────────┘\n";
    assert_eq!(t.render(), expected);
}

#[test]
fn table_default_style_is_double() {
    let t = Table::builder().add_column(Column::new("A")).build();
    assert_eq!(t.render(), "╔═════╗\n║ A   ║\n╠═════╣\n╚═════╝\n");
}

#[test]
fn rows_of_other_lengths_are_zipped_short() {
    let mut t = small_table();
    t.add_row(vec!["1".to_string(), "Bo".to_string(), "extra".to_string()]);
    t.add_row(vec!["22".to_string()]);
    let expected = "┌──────┬────────┐\n\
                    │ ID   │ Name   │\n\
                    ├──────┼────────┤\n\
                    │ 1    │ Bo     │\n\
                    │ 22   │\n\
                    └──────┴────────┘\n";
    assert_eq!(t.render(), expected);
}

#[test]
fn widths_cover_every_cell_after_each_row() {
    let mut t = Table::builder()
        .add_column(Column::new("Item"))
        .add_column(Column::new("Qty").with_alignment(Alignment::Right))
        .build();
    let rows = [["apple", "3"], ["watermelon", "12"], ["fig", "1000000"]];
    for r in rows.iter() {
        t.add_row(vec![r[0].to_string(), r[1].to_string()]);
        let out = t.render();
        let top = out.lines().next().unwrap();
        let segs: Vec<usize> = top
            .trim_start_matches('╔')
            .trim_end_matches('╗')
            .split('╦')
            .map(|s| s.chars().count())
            .collect();
        assert!(segs[0] >= "Item".len() + 4);
        assert!(segs[1] >= "Qty".len() + 4);
        assert!(segs[0] >= r[0].len() + 4);
        assert!(segs[1] >= r[1].len() + 4);
    }
    let out = t.render();
    assert!(out.starts_with("╔══════════════╦═══════════╗\n"));
    assert!(out.contains("║ watermelon   ║  12       ║\n"));
}

#[test]
fn max_width_truncates_cells() {
    let mut t = Table::builder()
        .add_column(Column::new("Note").with_max_width(6))
        .style(BorderStyle::Rounded)
        .build();
    t.add_row(vec!["a very long note".to_string()]);
    assert_eq!(
        t.render(),
        "╭──────────╮\n│ Note     │\n├──────────┤\n│ a v...   │\n╰──────────╯\n"
    );
}

#[test]
fn table_renders_the_same_twice() {
    let mut t = small_table();
    t.add_row(vec!["7".to_string(), "Zed".to_string()]);
    assert_eq!(t.render(), t.render());
}

#[test]
fn narrow_minimum_width_still_fits_the_header() {
    let t = Table::builder()
        .add_column(Column::new("Name").with_width(0))
        .style(BorderStyle::Single)
        .build();
    assert_eq!(t.render(), "┌────────┐\n│ Name   │\n├────────┤\n└────────┘\n");
}
