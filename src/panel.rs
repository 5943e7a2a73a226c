//! Panels: one bordered box of word-wrapped text under an optional title.
use vstd::prelude::*;
use crate::border::{glyphs, BorderChars, BorderStyle};
use crate::text::{capped, concat_lines, framed_line, gap, lemma_concat_step, push_all, push_repeat, repeat_char, spaces};
use crate::wrap::{
    display_width, is_wide, is_wide_char, lemma_display_width_concat, lemma_display_width_single,
    lemma_display_width_spaces, width_of, wrap_all, wrapped,
};

verus! {

/// The width of a new panel.
pub const DEFAULT_WIDTH: usize = 40;

/// The narrowest panel: room for the borders and a shortened title `[ ... ]`.
pub const MIN_WIDTH: usize = 9;

/// The title as it goes into a top border with `inner` columns between the corners: cut to
/// `inner - 7` characters and `...` when longer than `inner - 4`.
pub open spec fn shown_title(t: Seq<char>, inner: nat) -> Seq<char> {
    if t.len() > gap(inner, 4) {
        t.take(gap(inner, 7) as int) + seq!['.', '.', '.']
    } else {
        t
    }
}

/// The top border: a plain rule, or the title as `[ title ]` centred in the rule with the
/// odd rule glyph on the right.
pub open spec fn top_line(g: BorderChars, title: Option<Seq<char>>, inner: nat) -> Seq<char> {
    match title {
        None => framed_line(g.top_left, repeat_char(g.horizontal, inner), g.top_right),
        Some(t) => {
            let s = shown_title(t, inner);
            let pad = gap(inner, s.len() + 4);
            let left = pad / 2;
            framed_line(
                g.top_left,
                repeat_char(g.horizontal, left) + seq!['[', ' '] + s + seq![' ', ']'] + repeat_char(
                    g.horizontal,
                    (pad - left) as nat,
                ),
                g.top_right,
            )
        },
    }
}

/// One line of content: a blank, the text, blanks up to `inner - 2` display columns, a
/// blank, framed by `v`.
pub open spec fn content_line(v: char, line: Seq<char>, inner: nat) -> Seq<char> {
    framed_line(v, seq![' '] + line + spaces(gap(gap(inner, 2), display_width(line))) + seq![' '], v)
}

/// A panel as the contracts see it.
pub ghost struct PanelView {
    pub content: Seq<char>,
    pub title: Option<Seq<char>>,
    pub style: BorderStyle,
    pub width: nat,
}

impl PanelView {
    /// The columns between the two side borders.
    pub open spec fn inner(self) -> nat {
        gap(self.width, 2)
    }

    /// The content's lines wrapped to the width inside borders and padding.
    pub open spec fn lines(self) -> Seq<Seq<char>> {
        wrapped(self.content, gap(self.width, 4))
    }

    /// Top border, one framed line per wrapped line, bottom border.
    pub open spec fn rendered(self) -> Seq<char> {
        let g = glyphs(self.style);
        top_line(g, self.title, self.inner()) + concat_lines(
            self.lines().map_values(|l: Seq<char>| content_line(g.vertical, l, self.inner())),
        ) + framed_line(g.bottom_left, repeat_char(g.horizontal, self.inner()), g.bottom_right)
    }
}

/// A bordered box of text.
pub struct Panel {
    content: String,
    title: Option<String>,
    style: BorderStyle,
    width: usize,
}

impl View for Panel {
    type V = PanelView;

    closed spec fn view(&self) -> PanelView {
        PanelView {
            content: self.content@,
            title: match self.title {
                Some(t) => Some(t@),
                None => None,
            },
            style: self.style,
            width: self.width as nat,
        }
    }
}

impl Panel {
    /// The panel is at least `MIN_WIDTH` wide.
    pub open spec fn wf(&self) -> bool {
        self@.width >= MIN_WIDTH
    }

    /// A panel of the default width with single lines and no title.
    pub fn new(content: &str) -> (r: Panel)
        ensures
            r.wf(),
            r@ == (PanelView {
                content: content@,
                title: None,
                style: BorderStyle::Single,
                width: DEFAULT_WIDTH as nat,
            }),
    {
        let mut c = String::new();
        push_all(&mut c, content);
        Panel { content: c, title: None, style: BorderStyle::Single, width: DEFAULT_WIDTH }
    }

    pub fn with_title(self, title: &str) -> (r: Panel)
        ensures
            r@ == (PanelView { title: Some(title@), ..self@ }),
    {
        let mut t = String::new();
        push_all(&mut t, title);
        Panel { content: self.content, title: Some(t), style: self.style, width: self.width }
    }

    pub fn with_style(self, style: BorderStyle) -> (r: Panel)
        ensures
            r@ == (PanelView { style, ..self@ }),
    {
        Panel { content: self.content, title: self.title, style, width: self.width }
    }

    /// Sets the total width, raised to `MIN_WIDTH` when smaller.
    pub fn with_width(self, width: usize) -> (r: Panel)
        ensures
            r.wf(),
            r@ == (PanelView {
                width: if width >= MIN_WIDTH {
                    width as nat
                } else {
                    MIN_WIDTH as nat
                },
                ..self@
            }),
    {
        let w = if width >= MIN_WIDTH {
            width
        } else {
            MIN_WIDTH
        };
        Panel { content: self.content, title: self.title, style: self.style, width: w }
    }

    /// Whether any character of `text` takes two columns.
    pub fn contains_wide_chars(text: &str) -> (r: bool)
        ensures
            r == exists|i: int| 0 <= i < text@.len() && is_wide(#[trigger] text@[i]),
    {
        for c in it: text.chars()
            invariant
                it.seq() == text@,
                forall|i: int| 0 <= i < it.index() ==> !is_wide(#[trigger] text@[i]),
        {
            if is_wide_char(c) {
                assert(is_wide(text@[it.index() as int]));
                return true;
            }
        }
        false
    }

    /// The columns `text` takes, capped at the largest `usize`.
    pub fn get_display_width(text: &str) -> (r: usize)
        ensures
            r == capped(display_width(text@)),
    {
        width_of(text)
    }

    /// `text` split at its line breaks and each line wrapped to the width inside the borders
    /// and padding.
    pub fn wrap_text(&self, text: &str) -> (r: Vec<String>)
        requires
            self.wf(),
        ensures
            r.deep_view() == wrapped(text@, gap(self@.width, 4)),
    {
        wrap_all(text, self.width - 4)
    }

    /// Appends the top border, with the title if there is one.
    fn write_top(&self, out: &mut String, g: &BorderChars)
        requires
            self.wf(),
        ensures
            final(out)@ == old(out)@ + top_line(*g, self@.title, self@.inner()),
    {
        let inner = self.width - 2;
        match &self.title {
            Some(t) => {
                assert(self@.title == Some(t@));
                write_titled_top(out, g, t.as_str(), inner);
            },
            None => {
                push_all_rule(out, g.top_left, g.horizontal, inner, g.top_right);
            },
        }
    }

    /// The whole panel as text, one line per printed row.
    pub fn render(&self) -> (r: String)
        requires
            self.wf(),
        ensures
            r@ == self@.rendered(),
    {
        let g = self.style.get_chars();
        let inner = self.width - 2;
        let mut out = String::new();
        self.write_top(&mut out, &g);
        let wrapped_lines = self.wrap_text(self.content.as_str());
        let ghost lines = self@.lines().map_values(|l: Seq<char>| content_line(g.vertical, l, self@.inner()));
        let ghost before = out@;
        let mut k: usize = 0;
        while k < wrapped_lines.len()
            invariant
                self.wf(),
                inner == self@.inner(),
                k <= wrapped_lines.len(),
                wrapped_lines.deep_view() == self@.lines(),
                lines == self@.lines().map_values(|l: Seq<char>| content_line(g.vertical, l, self@.inner())),
                out@ == before + concat_lines(lines.take(k as int)),
            decreases wrapped_lines.len() - k,
        {
            proof {
                lemma_concat_step(lines, k as int);
                assert(self@.lines()[k as int] == wrapped_lines[k as int]@);
            }
            let ghost prev = out@;
            let line = wrapped_lines[k].as_str();
            out.push(g.vertical);
            out.push(' ');
            push_all(&mut out, line);
            let dw = width_of(line);
            let fill: usize = if dw < inner - 2 {
                inner - 2 - dw
            } else {
                0
            };
            push_repeat(&mut out, ' ', fill);
            out.push(' ');
            out.push(g.vertical);
            out.push('\n');
            assert(out@ =~= prev + content_line(g.vertical, line@, inner as nat));
            k = k + 1;
        }
        push_all_rule(&mut out, g.bottom_left, g.horizontal, inner, g.bottom_right);
        proof {
            assert(lines.take(wrapped_lines.len() as int) =~= lines);
            assert(out@ =~= self@.rendered());
        }
        out
    }
}

/// Appends `left`, `n` copies of `h`, `right` and a line break.
fn push_all_rule(out: &mut String, left: char, h: char, n: usize, right: char)
    ensures
        final(out)@ == old(out)@ + framed_line(left, repeat_char(h, n as nat), right),
{
    out.push(left);
    push_repeat(out, h, n);
    out.push(right);
    out.push('\n');
    assert(final(out)@ =~= old(out)@ + framed_line(left, repeat_char(h, n as nat), right));
}

/// The title cut to fit a top border with `inner` columns between the corners.
fn shorten_title(t: &str, inner: usize) -> (r: String)
    requires
        inner >= 7,
    ensures
        r@ == shown_title(t@, inner as nat),
{
    let n = t.unicode_len();
    let mut shown = String::new();
    if n > inner - 4 {
        push_all(&mut shown, t.substring_char(0, inner - 7));
        push_repeat(&mut shown, '.', 3);
        assert(repeat_char('.', 3) =~= seq!['.', '.', '.']);
    } else {
        push_all(&mut shown, t);
    }
    shown
}

/// Appends a top border that carries `title`.
fn write_titled_top(out: &mut String, g: &BorderChars, title: &str, inner: usize)
    requires
        inner >= 7,
    ensures
        final(out)@ == old(out)@ + top_line(*g, Some(title@), inner as nat),
{
    let shown = shorten_title(title, inner);
    let len = shown.as_str().unicode_len();
    let pad = inner - len - 4;
    let left = pad / 2;
    out.push(g.top_left);
    push_repeat(out, g.horizontal, left);
    out.push('[');
    out.push(' ');
    push_all(out, shown.as_str());
    out.push(' ');
    out.push(']');
    push_repeat(out, g.horizontal, pad - left);
    out.push(g.top_right);
    out.push('\n');
    assert(final(out)@ =~= old(out)@ + top_line(*g, Some(title@), inner as nat));
}

/// A content line whose text fits the panel (display width at most `inner - 2`) is, without
/// its line break, exactly `inner + 2` columns wide, as wide as the borders, when the side
/// glyph is narrow. Wrapped
/// text always fits unless a single word is wider than the panel.
pub proof fn lemma_content_line_width(v: char, line: Seq<char>, inner: nat)
    requires
        !is_wide(v),
        inner >= 2,
        display_width(line) <= inner - 2,
    ensures
        display_width(content_line(v, line, inner).drop_last()) == inner + 2,
{
    let fill = spaces(gap(gap(inner, 2), display_width(line)));
    let body = seq![' '] + line + fill + seq![' '];
    lemma_display_width_spaces(gap(gap(inner, 2), display_width(line)));
    lemma_display_width_single(' ');
    lemma_display_width_single(v);
    lemma_display_width_concat(seq![' '], line);
    lemma_display_width_concat(seq![' '] + line, fill);
    lemma_display_width_concat(seq![' '] + line + fill, seq![' ']);
    lemma_display_width_concat(seq![v], body);
    lemma_display_width_concat(seq![v] + body, seq![v]);
    assert(content_line(v, line, inner).drop_last() =~= seq![v] + body + seq![v]);
}

} // verus!
