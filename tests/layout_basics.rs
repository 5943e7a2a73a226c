use pinax::border::BorderChars;
use pinax::column::Column;
use pinax::{Alignment, BorderStyle};

#[test]
fn left_alignment_pads_on_the_right() {
    assert_eq!(Alignment::Left.format_content("ab", 5), " ab    ");
    assert_eq!(Alignment::Left.format_content("ab", 5).chars().count(), 7);
}

#[test]
fn right_alignment_pads_on_the_left() {
    assert_eq!(Alignment::Right.format_content("ab", 5), "    ab ");
}

#[test]
fn center_alignment_puts_the_odd_blank_on_the_right() {
    assert_eq!(Alignment::Center.format_content("x", 3), "  x  ");
    assert_eq!(Alignment::Center.format_content("x", 4), "  x   ");
}

#[test]
fn long_content_is_cut_with_an_ellipsis() {
    assert_eq!(Alignment::Left.format_content("abcdefgh", 5), " ab... ");
    assert_eq!(Alignment::Right.format_content("abcdef", 3), " ... ");
}

#[test]
fn narrow_width_keeps_only_the_ellipsis() {
    assert_eq!(Alignment::Left.format_content("abcd", 2), " ... ");
    assert_eq!(Alignment::Center.format_content("abcd", 0), " ... ");
}

#[test]
fn content_that_fits_exactly_is_kept() {
    assert_eq!(Alignment::Center.format_content("abc", 3), " abc ");
}

fn row(c: BorderChars) -> String {
    [
        c.top_left,
        c.top_right,
        c.bottom_left,
        c.bottom_right,
        c.horizontal,
        c.vertical,
        c.left_separator,
        c.right_separator,
        c.top_separator,
        c.bottom_separator,
        c.cross,
    ]
    .iter()
    .collect()
}

#[test]
fn single_style_glyphs() {
    assert_eq!(row(BorderStyle::Single.get_chars()), "┌┐└┘─│├┤┬┴┼");
}

#[test]
fn double_style_glyphs() {
    assert_eq!(row(BorderStyle::Double.get_chars()), "╔╗╚╝═║╠╣╦╩╬");
}

#[test]
fn rounded_style_glyphs() {
    assert_eq!(row(BorderStyle::Rounded.get_chars()), "╭╮╰╯─│├┤┬┴┼");
}

#[test]
fn default_style_is_single() {
    assert_eq!(BorderStyle::default(), BorderStyle::Single);
}

#[test]
fn empty_content_takes_the_header_width() {
    for h in ["", "a", "Name", "Description"] {
        let c = Column::new(h);
        assert_eq!(c.get_content_width(0), h.len());
    }
    let c = Column::new("Score").with_alignment(Alignment::Right).with_padding(7);
    assert_eq!(c.get_content_width(0), 5);
}

#[test]
fn content_width_is_clamped_between_min_and_max() {
    let c = Column::new("Name").with_max_width(6);
    assert_eq!(c.get_content_width(2), 4);
    assert_eq!(c.get_content_width(5), 5);
    assert_eq!(c.get_content_width(20), 6);
    let w = Column::new("Id").with_width(10);
    assert_eq!(w.get_content_width(3), 10);
    assert_eq!(w.get_content_width(12), 12);
}

#[test]
fn padding_is_never_under_two() {
    assert_eq!(Column::new("Name").total_width(), 8);
    assert_eq!(Column::new("Name").with_padding(0).total_width(), 6);
    assert_eq!(Column::new("Name").with_padding(5).padding(), 5);
    assert_eq!(Column::new("Name").with_padding(1).padding(), 2);
}

#[test]
fn column_formats_with_its_own_alignment() {
    let c = Column::new("Score").with_alignment(Alignment::Right);
    assert_eq!(c.format_content("7"), "     7 ");
    let m = Column::new("N").with_max_width(4);
    assert_eq!(m.format_content("abcdefg"), " a... ");
    assert_eq!(m.header(), "N");
}
