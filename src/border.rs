//! The glyphs that each border style draws with.
use vstd::prelude::*;

verus! {

/// The line style of a box.
#[derive(Debug, Clone, Copy, PartialEq, Eq, Structural)]
pub enum BorderStyle {
    Single,
    Double,
    Rounded,
}

impl Default for BorderStyle {
    fn default() -> (r: BorderStyle)
        ensures
            r == BorderStyle::Single,
    {
        BorderStyle::Single
    }
}

/// The eleven glyphs of one style.
#[derive(Debug, Clone, Copy, PartialEq, Eq, Structural)]
pub struct BorderChars {
    pub top_left: char,
    pub top_right: char,
    pub bottom_left: char,
    pub bottom_right: char,
    pub horizontal: char,
    pub vertical: char,
    pub left_separator: char,
    pub right_separator: char,
    pub top_separator: char,
    pub bottom_separator: char,
    pub cross: char,
}

/// The glyph table, one row per style.
pub open spec fn glyphs(style: BorderStyle) -> BorderChars {
    match style {
        BorderStyle::Single => BorderChars {
            top_left: '┌',
            top_right: '┐',
            bottom_left: '└',
            bottom_right: '┘',
            horizontal: '─',
            vertical: '│',
            left_separator: '├',
            right_separator: '┤',
            top_separator: '┬',
            bottom_separator: '┴',
            cross: '┼',
        },
        BorderStyle::Double => BorderChars {
            top_left: '╔',
            top_right: '╗',
            bottom_left: '╚',
            bottom_right: '╝',
            horizontal: '═',
            vertical: '║',
            left_separator: '╠',
            right_separator: '╣',
            top_separator: '╦',
            bottom_separator: '╩',
            cross: '╬',
        },
        BorderStyle::Rounded => BorderChars {
            top_left: '╭',
            top_right: '╮',
            bottom_left: '╰',
            bottom_right: '╯',
            horizontal: '─',
            vertical: '│',
            left_separator: '├',
            right_separator: '┤',
            top_separator: '┬',
            bottom_separator: '┴',
            cross: '┼',
        },
    }
}

impl BorderStyle {
    /// Looks up the glyphs of this style.
    pub fn get_chars(&self) -> (r: BorderChars)
        ensures
            r == glyphs(*self),
    {
        match self {
            BorderStyle::Single => BorderChars {
                top_left: '┌',
                top_right: '┐',
                bottom_left: '└',
                bottom_right: '┘',
                horizontal: '─',
                vertical: '│',
                left_separator: '├',
                right_separator: '┤',
                top_separator: '┬',
                bottom_separator: '┴',
                cross: '┼',
            },
            BorderStyle::Double => BorderChars {
                top_left: '╔',
                top_right: '╗',
                bottom_left: '╚',
                bottom_right: '╝',
                horizontal: '═',
                vertical: '║',
                left_separator: '╠',
                right_separator: '╣',
                top_separator: '╦',
                bottom_separator: '╩',
                cross: '╬',
            },
            BorderStyle::Rounded => BorderChars {
                top_left: '╭',
                top_right: '╮',
                bottom_left: '╰',
                bottom_right: '╯',
                horizontal: '─',
                vertical: '│',
                left_separator: '├',
                right_separator: '┤',
                top_separator: '┬',
                bottom_separator: '┴',
                cross: '┼',
            },
        }
    }
}

} // verus!
