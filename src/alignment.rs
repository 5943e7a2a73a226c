//! Placing a piece of text in a cell of fixed width.
use vstd::prelude::*;
use crate::text::{gap, push_all, push_repeat, repeat_char, spaces};

verus! {

/// How text sits in a cell that is wider than the text.
#[derive(Debug, Clone, Copy, PartialEq, Eq, Structural)]
pub enum Alignment {
    Left,
    Right,
    Center,
}

/// The text as it goes into a cell of `width` characters: unchanged when it fits, else its
/// first `width - 3` characters (none when `width < 3`) followed by `...`.
pub open spec fn fitted(content: Seq<char>, width: nat) -> Seq<char> {
    if content.len() > width {
        content.take(gap(width, 3) as int) + seq!['.', '.', '.']
    } else {
        content
    }
}

/// `text` brought to `width` characters with blanks as `a` places them; the centred form puts
/// the odd blank on the right. Text as wide or wider is left as it is.
pub open spec fn justified(a: Alignment, text: Seq<char>, width: nat) -> Seq<char> {
    let fill = gap(width, text.len());
    match a {
        Alignment::Left => text + spaces(fill),
        Alignment::Right => spaces(fill) + text,
        Alignment::Center => spaces(fill / 2) + text + spaces((fill - fill / 2) as nat),
    }
}

impl Alignment {
    /// The cell: one blank, the fitted and justified text, one blank.
    pub open spec fn formatted(self, content: Seq<char>, width: nat) -> Seq<char> {
        seq![' '] + justified(self, fitted(content, width), width) + seq![' ']
    }

    /// Places `content` in a cell `width` characters wide, flanked by one blank on each side.
    pub fn format_content(&self, content: &str, width: usize) -> (r: String)
        ensures
            r@ == self.formatted(content@, width as nat),
    {
        let n = content.unicode_len();
        let mut text = String::new();
        let len: usize;
        if n > width {
            let keep = width.saturating_sub(3);
            push_all(&mut text, content.substring_char(0, keep));
            push_repeat(&mut text, '.', 3);
            len = keep + 3;
            assert(repeat_char('.', 3) =~= seq!['.', '.', '.']);
        } else {
            push_all(&mut text, content);
            len = n;
        }
        assert(text@ == fitted(content@, width as nat));
        let fill: usize = if len < width {
            width - len
        } else {
            0
        };
        let mut r = String::new();
        r.push(' ');
        match self {
            Alignment::Left => {
                push_all(&mut r, text.as_str());
                push_repeat(&mut r, ' ', fill);
            },
            Alignment::Right => {
                push_repeat(&mut r, ' ', fill);
                push_all(&mut r, text.as_str());
            },
            Alignment::Center => {
                push_repeat(&mut r, ' ', fill / 2);
                push_all(&mut r, text.as_str());
                push_repeat(&mut r, ' ', fill - fill / 2);
            },
        }
        r.push(' ');
        assert(r@ =~= self.formatted(content@, width as nat));
        r
    }
}

} // verus!
