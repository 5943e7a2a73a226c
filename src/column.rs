//! One column of a table: its header and the policy that sizes its cells.
use vstd::prelude::*;
use crate::alignment::Alignment;
use crate::text::{capped, push_all};

verus! {

/// The least padding a column takes.
pub const MIN_PADDING: usize = 2;

/// The padding of a new column.
pub const DEFAULT_PADDING: usize = 4;

/// A column as the contracts see it.
pub ghost struct ColumnView {
    pub header: Seq<char>,
    pub alignment: Alignment,
    pub min_width: nat,
    pub max_width: Option<nat>,
    pub padding: nat,
}

impl ColumnView {
    /// The width given to content `w` characters wide: at least the minimum width, and at
    /// most the maximum width when there is one.
    pub open spec fn content_width(self, w: nat) -> nat {
        let at_least = if w >= self.min_width {
            w
        } else {
            self.min_width
        };
        match self.max_width {
            Some(m) => if at_least <= m {
                at_least
            } else {
                m
            },
            None => at_least,
        }
    }

    /// The cell that `text` becomes in this column.
    pub open spec fn formatted(self, text: Seq<char>) -> Seq<char> {
        self.alignment.formatted(text, self.content_width(text.len()))
    }

    /// The minimum width plus the padding, capped at the largest `usize`: a first estimate
    /// of the column's width that ignores its header and cells.
    pub open spec fn total_width(self) -> nat {
        capped(self.min_width + self.padding)
    }
}

/// A table column: header text, alignment, minimum and optional maximum content width, and
/// padding (never under two).
#[derive(Clone, Debug)]
pub struct Column {
    pub(crate) header: String,
    pub(crate) alignment: Alignment,
    pub(crate) min_width: usize,
    pub(crate) max_width: Option<usize>,
    pub(crate) padding: usize,
}

impl View for Column {
    type V = ColumnView;

    closed spec fn view(&self) -> ColumnView {
        ColumnView {
            header: self.header@,
            alignment: self.alignment,
            min_width: self.min_width as nat,
            max_width: match self.max_width {
                Some(m) => Some(m as nat),
                None => None,
            },
            padding: self.padding as nat,
        }
    }
}

impl Column {
    /// A left-aligned column whose minimum width is the header's length, with the default
    /// padding and no maximum width.
    pub fn new(header: &str) -> (r: Column)
        ensures
            r@ == (ColumnView {
                header: header@,
                alignment: Alignment::Left,
                min_width: header@.len(),
                max_width: None,
                padding: DEFAULT_PADDING as nat,
            }),
    {
        let mut h = String::new();
        push_all(&mut h, header);
        let n = header.unicode_len();
        Column { header: h, alignment: Alignment::Left, min_width: n, max_width: None, padding: DEFAULT_PADDING }
    }

    pub fn with_alignment(self, alignment: Alignment) -> (r: Column)
        ensures
            r@ == (ColumnView { alignment, ..self@ }),
    {
        Column { alignment, ..self }
    }

    pub fn with_width(self, min_width: usize) -> (r: Column)
        ensures
            r@ == (ColumnView { min_width: min_width as nat, ..self@ }),
    {
        Column { min_width, ..self }
    }

    pub fn with_max_width(self, max_width: usize) -> (r: Column)
        ensures
            r@ == (ColumnView { max_width: Some(max_width as nat), ..self@ }),
    {
        Column { max_width: Some(max_width), ..self }
    }

    /// Sets the padding, raised to the least padding when smaller.
    pub fn with_padding(self, padding: usize) -> (r: Column)
        ensures
            r@ == (ColumnView {
                padding: if padding >= MIN_PADDING {
                    padding as nat
                } else {
                    MIN_PADDING as nat
                },
                ..self@
            }),
    {
        let p = if padding >= MIN_PADDING {
            padding
        } else {
            MIN_PADDING
        };
        Column { padding: p, ..self }
    }

    /// The header text.
    pub fn header(&self) -> (r: &str)
        ensures
            r@ == self@.header,
    {
        self.header.as_str()
    }

    /// The padding added to the content width.
    pub fn padding(&self) -> (r: usize)
        ensures
            r == self@.padding,
    {
        self.padding
    }

    /// The width given to content `content_width` characters wide.
    pub fn get_content_width(&self, content_width: usize) -> (r: usize)
        ensures
            r == self@.content_width(content_width as nat),
    {
        let width = if content_width >= self.min_width {
            content_width
        } else {
            self.min_width
        };
        match self.max_width {
            Some(max) => if width <= max {
                width
            } else {
                max
            },
            None => width,
        }
    }

    /// The cell that `content` becomes in this column.
    pub fn format_content(&self, content: &str) -> (r: String)
        ensures
            r@ == self@.formatted(content@),
    {
        let width = self.get_content_width(content.unicode_len());
        self.alignment.format_content(content, width)
    }

    /// The minimum width plus the padding (capped at the largest `usize`).
    pub fn total_width(&self) -> (r: usize)
        ensures
            r == self@.total_width(),
    {
        self.min_width.saturating_add(self.padding)
    }
}

/// A column that keeps its header's length as its minimum width gives content of width zero
/// exactly that many characters, unless a maximum width below it cuts it.
pub proof fn lemma_empty_content_takes_header_width(c: ColumnView)
    requires
        c.min_width == c.header.len(),
        match c.max_width {
            Some(m) => m >= c.header.len(),
            None => true,
        },
    ensures
        c.content_width(0) == c.header.len(),
{
}

} // verus!
