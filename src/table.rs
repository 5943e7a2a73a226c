//! Tables: a fixed list of columns, a growing list of rows, and a width per column that
//! follows the contents.
use vstd::prelude::*;
use crate::border::{glyphs, BorderChars, BorderStyle};
use crate::column::{Column, ColumnView};
use crate::text::{
    capped, concat_lines, framed_line, join_with, lemma_concat_step, lemma_join_step, pad_right, push_all, push_padded,
    push_repeat, repeat_char,
};

verus! {

/// The longest of `base` and the lengths of cell `i` of the rows that have one.
pub open spec fn longest_cell(rows: Seq<Seq<Seq<char>>>, i: int, base: nat) -> nat
    decreases rows.len(),
{
    if rows.len() == 0 {
        base
    } else {
        let m = longest_cell(rows.drop_last(), i, base);
        let r = rows.last();
        if 0 <= i < r.len() && r[i].len() > m {
            r[i].len()
        } else {
            m
        }
    }
}

/// The rendered width of column `i`: the content width of its longest text (header
/// included) plus the padding, capped at the largest `usize`.
pub open spec fn column_width(c: ColumnView, rows: Seq<Seq<Seq<char>>>, i: int) -> nat {
    capped(c.content_width(longest_cell(rows, i, c.header.len())) + c.padding)
}

/// The rendered widths of all columns.
pub open spec fn column_widths(columns: Seq<ColumnView>, rows: Seq<Seq<Seq<char>>>) -> Seq<nat> {
    Seq::new(columns.len(), |i: int| column_width(columns[i], rows, i))
}

/// A horizontal rule: one run of `h` per width, `sep` between runs, `left` and `right` at
/// the ends.
pub open spec fn rule_line(left: char, right: char, h: char, sep: char, widths: Seq<nat>) -> Seq<char> {
    framed_line(left, join_with(widths.map_values(|w: nat| repeat_char(h, w)), sep), right)
}

/// A row of cells: each cell formatted by its column and padded to its column's width, as
/// many cells as both the row and the columns have, divided and framed by `v`.
pub open spec fn cells_line(
    v: char,
    cells: Seq<Seq<char>>,
    columns: Seq<ColumnView>,
    widths: Seq<nat>,
) -> Seq<char> {
    let n = if cells.len() <= columns.len() {
        cells.len()
    } else {
        columns.len()
    };
    framed_line(
        v,
        join_with(Seq::new(n, |k: int| pad_right(columns[k].formatted(cells[k]), widths[k])), v),
        v,
    )
}

/// A table as the contracts see it.
pub ghost struct TableView {
    pub columns: Seq<ColumnView>,
    pub rows: Seq<Seq<Seq<char>>>,
    pub style: BorderStyle,
}

impl TableView {
    pub open spec fn widths(self) -> Seq<nat> {
        column_widths(self.columns, self.rows)
    }

    pub open spec fn headers(self) -> Seq<Seq<char>> {
        self.columns.map_values(|c: ColumnView| c.header)
    }

    /// The rendered table: top rule, header row, header rule, one line per row, bottom rule.
    pub open spec fn rendered(self) -> Seq<char> {
        let g = glyphs(self.style);
        let w = self.widths();
        rule_line(g.top_left, g.top_right, g.horizontal, g.top_separator, w)
            + cells_line(g.vertical, self.headers(), self.columns, w)
            + rule_line(g.left_separator, g.right_separator, g.horizontal, g.cross, w)
            + concat_lines(self.rows.map_values(|r: Seq<Seq<char>>| cells_line(g.vertical, r, self.columns, w)))
            + rule_line(g.bottom_left, g.bottom_right, g.horizontal, g.bottom_separator, w)
    }
}

/// The columns and style gathered before a table is built.
pub ghost struct TableBuilderView {
    pub columns: Seq<ColumnView>,
    pub style: Option<BorderStyle>,
}

/// Collects the columns and the style of a table.
pub struct TableBuilder {
    columns: Vec<Column>,
    style: Option<BorderStyle>,
}

impl View for TableBuilder {
    type V = TableBuilderView;

    closed spec fn view(&self) -> TableBuilderView {
        TableBuilderView { columns: self.columns@.map_values(|c: Column| c@), style: self.style }
    }
}

/// A table of text cells drawn with box glyphs.
pub struct Table {
    columns: Vec<Column>,
    rows: Vec<Vec<String>>,
    style: BorderStyle,
    column_widths: Vec<usize>,
}

impl View for Table {
    type V = TableView;

    closed spec fn view(&self) -> TableView {
        TableView {
            columns: self.columns@.map_values(|c: Column| c@),
            rows: self.rows.deep_view(),
            style: self.style,
        }
    }
}

impl Default for TableBuilder {
    fn default() -> (r: TableBuilder)
        ensures
            r@ == (TableBuilderView { columns: Seq::empty(), style: None }),
    {
        TableBuilder::new()
    }
}

impl TableBuilder {
    /// No columns, no style chosen.
    pub fn new() -> (r: TableBuilder)
        ensures
            r@ == (TableBuilderView { columns: Seq::empty(), style: None }),
    {
        let r = TableBuilder { columns: Vec::new(), style: None };
        assert(r@.columns =~= Seq::empty());
        r
    }

    /// Appends a column.
    pub fn add_column(self, column: Column) -> (r: TableBuilder)
        ensures
            r@ == (TableBuilderView { columns: self@.columns.push(column@), ..self@ }),
    {
        let mut columns = self.columns;
        columns.push(column);
        let r = TableBuilder { columns, style: self.style };
        assert(r@.columns =~= self@.columns.push(column@));
        r
    }

    /// Chooses the border style.
    pub fn style(self, style: BorderStyle) -> (r: TableBuilder)
        ensures
            r@ == (TableBuilderView { style: Some(style), ..self@ }),
    {
        TableBuilder { columns: self.columns, style: Some(style) }
    }

    /// The table, with no rows; drawn with double lines unless a style was chosen.
    pub fn build(self) -> (r: Table)
        ensures
            r.wf(),
            r@ == (TableView {
                columns: self@.columns,
                rows: Seq::empty(),
                style: match self@.style {
                    Some(s) => s,
                    None => BorderStyle::Double,
                },
            }),
    {
        let style = match self.style {
            Some(s) => s,
            None => BorderStyle::Double,
        };
        Table::new(self.columns, style)
    }
}

impl Table {
    /// The stored widths are those that the columns and rows give.
    pub closed spec fn wf(&self) -> bool {
        &&& self.column_widths.len() == self.columns.len()
        &&& forall|i: int|
            0 <= i < self.columns.len() ==> self.column_widths[i] as nat == #[trigger] self@.widths()[i]
    }

    pub fn builder() -> (r: TableBuilder)
        ensures
            r@ == (TableBuilderView { columns: Seq::empty(), style: None }),
    {
        TableBuilder::new()
    }

    fn new(columns: Vec<Column>, style: BorderStyle) -> (r: Table)
        ensures
            r.wf(),
            r@ == (TableView {
                columns: columns@.map_values(|c: Column| c@),
                rows: Seq::empty(),
                style,
            }),
    {
        let mut column_widths: Vec<usize> = Vec::new();
        let mut i: usize = 0;
        while i < columns.len()
            invariant
                i <= columns.len(),
                column_widths.len() == i,
                forall|k: int|
                    0 <= k < i ==> column_widths[k] as nat == #[trigger] column_width(
                        columns[k]@,
                        Seq::empty(),
                        k,
                    ),
            decreases columns.len() - i,
        {
            let col = &columns[i];
            column_widths.push(col.get_content_width(col.header().unicode_len()).saturating_add(col.padding()));
            i = i + 1;
        }
        let r = Table { columns, rows: Vec::new(), style, column_widths };
        assert(r@.rows =~= Seq::empty());
        r
    }

    /// Recomputes every column's width from the header and the rows.
    fn calculate_column_widths(&mut self)
        ensures
            final(self).wf(),
            final(self)@ == old(self)@,
    {
        let mut widths: Vec<usize> = Vec::new();
        let mut i: usize = 0;
        while i < self.columns.len()
            invariant
                i <= self.columns.len(),
                widths.len() == i,
                forall|k: int| 0 <= k < i ==> widths[k] as nat == #[trigger] self@.widths()[k],
            decreases self.columns.len() - i,
        {
            let col = &self.columns[i];
            let mut longest = col.header().unicode_len();
            let mut j: usize = 0;
            while j < self.rows.len()
                invariant
                    i < self.columns.len(),
                    j <= self.rows.len(),
                    longest == longest_cell(self@.rows.take(j as int), i as int, col@.header.len()),
                decreases self.rows.len() - j,
            {
                proof {
                    assert(self@.rows.take(j as int + 1).drop_last() =~= self@.rows.take(j as int));
                }
                let row = &self.rows[j];
                if i < row.len() {
                    let n = row[i].as_str().unicode_len();
                    if n > longest {
                        longest = n;
                    }
                }
                j = j + 1;
            }
            proof {
                assert(self@.rows.take(self.rows.len() as int) =~= self@.rows);
                assert(self@.columns[i as int] == col@);
            }
            let w = col.get_content_width(longest).saturating_add(col.padding());
            widths.push(w);
            i = i + 1;
        }
        self.column_widths = widths;
        assert(self@ == old(self)@);
        assert(forall|k: int| 0 <= k < self.columns.len() ==> self.column_widths[k] as nat == #[trigger] self@.widths()[k]);
    }

    /// Appends a row and recomputes the widths. A row may hold more or fewer cells than
    /// there are columns.
    pub fn add_row(&mut self, row: Vec<String>)
        requires
            old(self).wf(),
        ensures
            final(self).wf(),
            final(self)@ == (TableView { rows: old(self)@.rows.push(row.deep_view()), ..old(self)@ }),
    {
        self.rows.push(row);
        proof {
            assert(self@.rows =~= old(self)@.rows.push(row.deep_view()));
        }
        self.calculate_column_widths();
    }

    /// Appends one line of cells to `out`.
    fn write_row(&self, out: &mut String, row: &Vec<String>, chars: &BorderChars)
        requires
            self.wf(),
        ensures
            final(out)@ == old(out)@ + cells_line(chars.vertical, row.deep_view(), self@.columns, self@.widths()),
    {
        let ghost cells = row.deep_view();
        let ghost w = self@.widths();
        let n = if row.len() <= self.columns.len() {
            row.len()
        } else {
            self.columns.len()
        };
        let ghost parts = Seq::new(
            n as nat,
            |k: int| pad_right(self@.columns[k].formatted(cells[k]), w[k]),
        );
        let ghost start = old(out)@;
        out.push(chars.vertical);
        let mut i: usize = 0;
        while i < n
            invariant
                self.wf(),
                i <= n,
                n <= row.len(),
                n <= self.columns.len(),
                cells == row.deep_view(),
                w == self@.widths(),
                parts == Seq::new(n as nat, |k: int| pad_right(self@.columns[k].formatted(cells[k]), w[k])),
                out@ == start + seq![chars.vertical] + join_with(parts.take(i as int), chars.vertical),
            decreases n - i,
        {
            proof {
                lemma_join_step(parts, i as int, chars.vertical);
            }
            if i > 0 {
                out.push(chars.vertical);
            }
            let formatted = self.columns[i].format_content(row[i].as_str());
            push_padded(out, formatted.as_str(), self.column_widths[i]);
            proof {
                assert(self@.columns[i as int] == self.columns[i as int]@);
                assert(cells[i as int] == row[i as int]@);
            }
            i = i + 1;
            assert(out@ =~= start + seq![chars.vertical] + join_with(parts.take(i as int), chars.vertical));
        }
        out.push(chars.vertical);
        out.push('\n');
        proof {
            assert(parts.take(n as int) =~= parts);
            assert(out@ =~= start + cells_line(chars.vertical, cells, self@.columns, w));
        }
    }

    /// Appends one horizontal rule to `out`.
    fn write_horizontal_border(&self, out: &mut String, left: char, right: char, horizontal: char, separator: char)
        requires
            self.wf(),
        ensures
            final(out)@ == old(out)@ + rule_line(left, right, horizontal, separator, self@.widths()),
    {
        let ghost w = self@.widths();
        let ghost parts = w.map_values(|x: nat| repeat_char(horizontal, x));
        let ghost start = old(out)@;
        out.push(left);
        let mut i: usize = 0;
        while i < self.column_widths.len()
            invariant
                self.wf(),
                i <= self.column_widths.len(),
                w == self@.widths(),
                parts == w.map_values(|x: nat| repeat_char(horizontal, x)),
                out@ == start + seq![left] + join_with(parts.take(i as int), separator),
            decreases self.column_widths.len() - i,
        {
            proof {
                lemma_join_step(parts, i as int, separator);
            }
            if i > 0 {
                out.push(separator);
            }
            push_repeat(out, horizontal, self.column_widths[i]);
            i = i + 1;
            assert(out@ =~= start + seq![left] + join_with(parts.take(i as int), separator));
        }
        out.push(right);
        out.push('\n');
        proof {
            assert(parts.take(self.column_widths.len() as int) =~= parts);
            assert(out@ =~= start + rule_line(left, right, horizontal, separator, w));
        }
    }

    /// The whole table as text, one line per printed row.
    pub fn render(&self) -> (r: String)
        requires
            self.wf(),
        ensures
            r@ == self@.rendered(),
    {
        let g = self.style.get_chars();
        let mut out = String::new();
        self.write_horizontal_border(&mut out, g.top_left, g.top_right, g.horizontal, g.top_separator);
        let mut headers: Vec<String> = Vec::new();
        let mut i: usize = 0;
        while i < self.columns.len()
            invariant
                i <= self.columns.len(),
                headers.len() == i,
                forall|k: int| 0 <= k < i ==> #[trigger] headers[k]@ == self@.columns[k].header,
            decreases self.columns.len() - i,
        {
            let mut h = String::new();
            push_all(&mut h, self.columns[i].header());
            assert(self@.columns[i as int] == self.columns[i as int]@);
            headers.push(h);
            i = i + 1;
        }
        assert(headers.deep_view() =~= self@.headers());
        self.write_row(&mut out, &headers, &g);
        self.write_horizontal_border(&mut out, g.left_separator, g.right_separator, g.horizontal, g.cross);
        let ghost lines = self@.rows.map_values(
            |r: Seq<Seq<char>>| cells_line(g.vertical, r, self@.columns, self@.widths()),
        );
        let ghost before = out@;
        let mut j: usize = 0;
        while j < self.rows.len()
            invariant
                self.wf(),
                j <= self.rows.len(),
                g == glyphs(self.style),
                lines == self@.rows.map_values(
                    |r: Seq<Seq<char>>| cells_line(g.vertical, r, self@.columns, self@.widths()),
                ),
                out@ == before + concat_lines(lines.take(j as int)),
            decreases self.rows.len() - j,
        {
            proof {
                lemma_concat_step(lines, j as int);
                assert(self@.rows[j as int] == self.rows[j as int].deep_view());
            }
            self.write_row(&mut out, &self.rows[j], &g);
            j = j + 1;
        }
        self.write_horizontal_border(&mut out, g.bottom_left, g.bottom_right, g.horizontal, g.bottom_separator);
        proof {
            assert(lines.take(self.rows.len() as int) =~= lines);
            assert(out@ =~= self@.rendered());
        }
        out
    }
}

} // verus!

verus! {

/// The longest text is at least the starting length and at least every cell in column `i`.
pub proof fn lemma_longest_cell_bounds(rows: Seq<Seq<Seq<char>>>, i: int, base: nat)
    ensures
        longest_cell(rows, i, base) >= base,
        forall|j: int|
            0 <= j < rows.len() && 0 <= i < rows[j].len() ==> longest_cell(rows, i, base) >= (
            #[trigger] rows[j])[i].len(),
    decreases rows.len(),
{
    if rows.len() > 0 {
        lemma_longest_cell_bounds(rows.drop_last(), i, base);
        assert forall|j: int| 0 <= j < rows.len() - 1 implies #[trigger] rows[j] == rows.drop_last()[j] by {}
    }
}

/// Whatever rows a table holds (none included), column `i` is at least as wide as its
/// header plus its padding, and as wide as every cell of the column plus the padding. Widths
/// are capped at the largest `usize`, so each bound is stated capped; below that cap it is
/// the plain sum. This holds where no maximum width cuts the column below its longest text.
pub proof fn lemma_widths_cover_contents(t: TableView, i: int)
    requires
        0 <= i < t.columns.len(),
        match t.columns[i].max_width {
            Some(m) => m >= longest_cell(t.rows, i, t.columns[i].header.len()),
            None => true,
        },
    ensures
        t.widths()[i] >= capped(t.columns[i].header.len() + t.columns[i].padding),
        forall|j: int|
            0 <= j < t.rows.len() && i < t.rows[j].len() ==> t.widths()[i] >= capped(
                (#[trigger] t.rows[j])[i].len() + t.columns[i].padding,
            ),
        t.columns[i].header.len() + t.columns[i].padding <= usize::MAX ==> t.widths()[i]
            >= t.columns[i].header.len() + t.columns[i].padding,
        forall|j: int|
            0 <= j < t.rows.len() && i < t.rows[j].len() && t.rows[j][i].len() + t.columns[i].padding
                <= usize::MAX ==> t.widths()[i] >= (#[trigger] t.rows[j])[i].len() + t.columns[i].padding,
{
    lemma_longest_cell_bounds(t.rows, i, t.columns[i].header.len());
}

} // verus!
