//! Grids: a fixed matrix of text cells, each drawn centred in a box of fixed width.
use vstd::prelude::*;
use crate::alignment::{justified, Alignment};
use crate::border::{glyphs, BorderStyle};
use crate::text::{
    concat_lines, framed_line, join_with, lemma_concat_append, lemma_concat_single,
    lemma_concat_step, lemma_join_step, push_all, push_repeat,
    repeat_char,
};

verus! {

/// The width of every cell of a grid.
pub const CELL_WIDTH: usize = 20;

/// A rule across `cols` cells: a run of `h` per cell, `sep` between runs.
pub open spec fn grid_rule(left: char, right: char, h: char, sep: char, cols: nat) -> Seq<char> {
    framed_line(left, join_with(Seq::new(cols, |_k: int| repeat_char(h, CELL_WIDTH as nat)), sep), right)
}

/// A row of cells, each centred in `CELL_WIDTH` characters, divided and framed by `v`.
pub open spec fn grid_row(v: char, cells: Seq<Seq<char>>) -> Seq<char> {
    framed_line(
        v,
        join_with(cells.map_values(|c: Seq<char>| justified(Alignment::Center, c, CELL_WIDTH as nat)), v),
        v,
    )
}

/// A grid as the contracts see it.
pub ghost struct GridView {
    pub cells: Seq<Seq<Seq<char>>>,
    pub rows: nat,
    pub cols: nat,
    pub style: BorderStyle,
}

impl GridView {
    /// Between the top and bottom rules: the rows, with a rule between neighbours.
    pub open spec fn body(self) -> Seq<Seq<char>> {
        let g = glyphs(self.style);
        let n = if self.rows == 0 {
            0
        } else {
            2 * self.rows - 1
        };
        Seq::new(
            n as nat,
            |k: int|
                if k % 2 == 0 {
                    grid_row(g.vertical, self.cells[k / 2])
                } else {
                    grid_rule(g.left_separator, g.right_separator, g.horizontal, g.cross, self.cols)
                },
        )
    }

    /// Every printed line in order.
    pub open spec fn lines(self) -> Seq<Seq<char>> {
        let g = glyphs(self.style);
        seq![grid_rule(g.top_left, g.top_right, g.horizontal, g.top_separator, self.cols)] + self.body()
            + seq![grid_rule(g.bottom_left, g.bottom_right, g.horizontal, g.bottom_separator, self.cols)]
    }

    pub open spec fn rendered(self) -> Seq<char> {
        concat_lines(self.lines())
    }
}

/// The dimensions and style gathered before a grid is built.
pub ghost struct GridBuilderView {
    pub rows: nat,
    pub cols: nat,
    pub style: Option<BorderStyle>,
}

/// Collects the dimensions and the style of a grid.
pub struct GridBuilder {
    rows: usize,
    cols: usize,
    style: Option<BorderStyle>,
}

impl View for GridBuilder {
    type V = GridBuilderView;

    closed spec fn view(&self) -> GridBuilderView {
        GridBuilderView { rows: self.rows as nat, cols: self.cols as nat, style: self.style }
    }
}

/// A `rows` by `cols` matrix of text cells.
pub struct Grid {
    cells: Vec<Vec<String>>,
    rows: usize,
    cols: usize,
    style: BorderStyle,
}

impl View for Grid {
    type V = GridView;

    closed spec fn view(&self) -> GridView {
        GridView { cells: self.cells.deep_view(), rows: self.rows as nat, cols: self.cols as nat, style: self.style }
    }
}

impl Default for GridBuilder {
    fn default() -> (r: GridBuilder)
        ensures
            r@ == (GridBuilderView { rows: 0, cols: 0, style: None }),
    {
        GridBuilder::new()
    }
}

impl GridBuilder {
    /// No rows, no columns, no style chosen.
    pub fn new() -> (r: GridBuilder)
        ensures
            r@ == (GridBuilderView { rows: 0, cols: 0, style: None }),
    {
        GridBuilder { rows: 0, cols: 0, style: None }
    }

    pub fn dimensions(self, rows: usize, cols: usize) -> (r: GridBuilder)
        ensures
            r@ == (GridBuilderView { rows: rows as nat, cols: cols as nat, ..self@ }),
    {
        GridBuilder { rows, cols, style: self.style }
    }

    pub fn style(self, style: BorderStyle) -> (r: GridBuilder)
        ensures
            r@ == (GridBuilderView { style: Some(style), ..self@ }),
    {
        GridBuilder { rows: self.rows, cols: self.cols, style: Some(style) }
    }

    /// The grid, every cell empty; drawn with single lines unless a style was chosen.
    pub fn build(self) -> (r: Grid)
        ensures
            r.wf(),
            r@.rows == self@.rows,
            r@.cols == self@.cols,
            r@.style == match self@.style {
                Some(s) => s,
                None => BorderStyle::Single,
            },
            forall|i: int, j: int| 0 <= i < r@.rows && 0 <= j < r@.cols ==> #[trigger] r@.cells[i][j] == Seq::<char>::empty(),
    {
        let style = match self.style {
            Some(s) => s,
            None => BorderStyle::Single,
        };
        Grid::new(self.rows, self.cols, style)
    }
}

impl Grid {
    /// There are `rows` rows of `cols` cells each.
    pub open spec fn wf(&self) -> bool {
        &&& self@.cells.len() == self@.rows
        &&& forall|i: int| 0 <= i < self@.rows ==> (#[trigger] self@.cells[i]).len() == self@.cols
    }

    pub fn builder() -> (r: GridBuilder)
        ensures
            r@ == (GridBuilderView { rows: 0, cols: 0, style: None }),
    {
        GridBuilder::new()
    }

    fn new(rows: usize, cols: usize, style: BorderStyle) -> (r: Grid)
        ensures
            r.wf(),
            r@.rows == rows,
            r@.cols == cols,
            r@.style == style,
            forall|i: int, j: int| 0 <= i < rows && 0 <= j < cols ==> #[trigger] r@.cells[i][j] == Seq::<char>::empty(),
    {
        let mut cells: Vec<Vec<String>> = Vec::new();
        let mut i: usize = 0;
        while i < rows
            invariant
                i <= rows,
                cells.len() == i,
                forall|a: int| 0 <= a < i ==> (#[trigger] cells[a]).len() == cols,
                forall|a: int, b: int| 0 <= a < i && 0 <= b < cols ==> #[trigger] cells[a][b]@ == Seq::<char>::empty(),
            decreases rows - i,
        {
            let mut row: Vec<String> = Vec::new();
            let mut j: usize = 0;
            while j < cols
                invariant
                    j <= cols,
                    row.len() == j,
                    forall|b: int| 0 <= b < j ==> #[trigger] row[b]@ == Seq::<char>::empty(),
                decreases cols - j,
            {
                row.push(String::new());
                j = j + 1;
            }
            cells.push(row);
            i = i + 1;
        }
        Grid { cells, rows, cols, style }
    }

    /// Puts `value` in the cell at (`row`, `col`); does nothing when either is out of range.
    pub fn set(&mut self, row: usize, col: usize, value: &str)
        requires
            old(self).wf(),
        ensures
            final(self).wf(),
            final(self)@ == if row < old(self)@.rows && col < old(self)@.cols {
                GridView {
                    cells: old(self)@.cells.update(
                        row as int,
                        old(self)@.cells[row as int].update(col as int, value@),
                    ),
                    ..old(self)@
                }
            } else {
                old(self)@
            },
    {
        if row < self.rows && col < self.cols {
            let mut s = String::new();
            push_all(&mut s, value);
            self.cells[row].set(col, s);
            proof {
                let ghost upd = old(self)@.cells.update(
                    row as int,
                    old(self)@.cells[row as int].update(col as int, value@),
                );
                assert(self.cells[row as int].deep_view() =~= old(self)@.cells[row as int].update(col as int, value@));
                assert forall|k: int| 0 <= k < self.cells.len() implies #[trigger] self@.cells[k] == upd[k] by {
                    if k != row as int {
                        assert(self.cells[k] == old(self).cells[k]);
                    }
                }
                assert(self@.cells =~= upd);
            }
        }
    }

    /// Appends one horizontal rule to `out`.
    fn write_horizontal_border(&self, out: &mut String, left: char, right: char, horizontal: char, separator: char)
        ensures
            final(out)@ == old(out)@ + grid_rule(left, right, horizontal, separator, self@.cols),
    {
        let ghost parts = Seq::new(self@.cols, |_k: int| repeat_char(horizontal, CELL_WIDTH as nat));
        let ghost start = old(out)@;
        out.push(left);
        let mut i: usize = 0;
        while i < self.cols
            invariant
                i <= self.cols,
                parts == Seq::new(self@.cols, |_k: int| repeat_char(horizontal, CELL_WIDTH as nat)),
                out@ == start + seq![left] + join_with(parts.take(i as int), separator),
            decreases self.cols - i,
        {
            proof {
                lemma_join_step(parts, i as int, separator);
            }
            if i > 0 {
                out.push(separator);
            }
            push_repeat(out, horizontal, CELL_WIDTH);
            i = i + 1;
            assert(out@ =~= start + seq![left] + join_with(parts.take(i as int), separator));
        }
        out.push(right);
        out.push('\n');
        proof {
            assert(parts.take(self.cols as int) =~= parts);
            assert(out@ =~= start + grid_rule(left, right, horizontal, separator, self@.cols));
        }
    }

    /// Appends one row of cells to `out`.
    fn write_cells(out: &mut String, row: &Vec<String>, vertical: char)
        ensures
            final(out)@ == old(out)@ + grid_row(vertical, row.deep_view()),
    {
        let ghost parts = row.deep_view().map_values(
            |c: Seq<char>| justified(Alignment::Center, c, CELL_WIDTH as nat),
        );
        let ghost start = old(out)@;
        out.push(vertical);
        let mut j: usize = 0;
        while j < row.len()
            invariant
                j <= row.len(),
                parts == row.deep_view().map_values(
                    |c: Seq<char>| justified(Alignment::Center, c, CELL_WIDTH as nat),
                ),
                out@ == start + seq![vertical] + join_with(parts.take(j as int), vertical),
            decreases row.len() - j,
        {
            proof {
                lemma_join_step(parts, j as int, vertical);
            }
            if j > 0 {
                out.push(vertical);
            }
            let cell = row[j].as_str();
            let n = cell.unicode_len();
            let fill: usize = if n < CELL_WIDTH {
                CELL_WIDTH - n
            } else {
                0
            };
            push_repeat(out, ' ', fill / 2);
            push_all(out, cell);
            push_repeat(out, ' ', fill - fill / 2);
            j = j + 1;
            assert(out@ =~= start + seq![vertical] + join_with(parts.take(j as int), vertical));
        }
        out.push(vertical);
        out.push('\n');
        proof {
            assert(parts.take(row.len() as int) =~= parts);
            assert(out@ =~= start + grid_row(vertical, row.deep_view()));
        }
    }

    /// The whole grid as text: a rule above, below and between rows, and each cell centred
    /// in `CELL_WIDTH` characters.
    pub fn render(&self) -> (r: String)
        requires
            self.wf(),
        ensures
            r@ == self@.rendered(),
    {
        let g = self.style.get_chars();
        let ghost lines = self@.lines();
        let ghost body = self@.body();
        let mut out = String::new();
        self.write_horizontal_border(&mut out, g.top_left, g.top_right, g.horizontal, g.top_separator);
        let ghost top = out@;
        let mut i: usize = 0;
        while i < self.rows
            invariant
                self.wf(),
                i <= self.rows,
                g == glyphs(self.style),
                body == self@.body(),
                out@ == top + concat_lines(body.take(if i == 0 { 0 } else { 2 * i - 1 })),
            decreases self.rows - i,
        {
            if i > 0 {
                proof {
                    lemma_concat_step(body, 2 * i - 1);
                }
                self.write_horizontal_border(&mut out, g.left_separator, g.right_separator, g.horizontal, g.cross);
            }
            proof {
                lemma_concat_step(body, 2 * i as int);
                assert(self@.cells[i as int] == self.cells[i as int].deep_view());
            }
            Grid::write_cells(&mut out, &self.cells[i], g.vertical);
            i = i + 1;
        }
        self.write_horizontal_border(&mut out, g.bottom_left, g.bottom_right, g.horizontal, g.bottom_separator);
        proof {
            let n = if self.rows == 0 { 0 } else { 2 * self.rows - 1 };
            assert(body.take(n as int) =~= body);
            let bottom = grid_rule(g.bottom_left, g.bottom_right, g.horizontal, g.bottom_separator, self@.cols);
            let first = seq![grid_rule(g.top_left, g.top_right, g.horizontal, g.top_separator, self@.cols)];
            lemma_concat_append(first, body);
            lemma_concat_append(first + body, seq![bottom]);
            lemma_concat_single(first[0]);
            lemma_concat_single(bottom);
            assert(out@ =~= self@.rendered());
        }
        out
    }
}

} // verus!

verus! {

/// `line` is a horizontal rule of a grid of `cols` columns drawn with `h`.
pub open spec fn is_grid_rule(line: Seq<char>, h: char, cols: nat) -> bool {
    exists|left: char, right: char, sep: char| line == grid_rule(left, right, h, sep, cols)
}

/// A grid of `r` rows (at least one) prints `2r + 1` lines: `r + 1` rules at the even places
/// and the `r` rows of cells, in order, at the odd places. Rows of cells start with the
/// vertical glyph and rules never do, so the two kinds cannot be mistaken.
pub proof fn lemma_grid_line_count(g: GridView)
    requires
        g.rows >= 1,
    ensures
        g.lines().len() == 2 * g.rows + 1,
        g.rendered() == concat_lines(g.lines()),
        forall|k: int|
            0 <= k <= 2 * g.rows && k % 2 == 0 ==> is_grid_rule(#[trigger] g.lines()[k], glyphs(g.style).horizontal, g.cols),
        forall|i: int| 0 <= i < g.rows ==> #[trigger] g.lines()[2 * i + 1] == grid_row(glyphs(g.style).vertical, g.cells[i]),
        forall|k: int|
            0 <= k <= 2 * g.rows ==> ((#[trigger] g.lines()[k])[0] == glyphs(g.style).vertical <==> k % 2 == 1),
{
    let c = glyphs(g.style);
    let lines = g.lines();
    let body = g.body();
    assert(lines.len() == 2 * g.rows + 1);
    assert forall|k: int| 0 <= k <= 2 * g.rows && k % 2 == 0 implies is_grid_rule(#[trigger] lines[k], c.horizontal, g.cols) by {
        if k == 0 {
            assert(lines[k] == grid_rule(c.top_left, c.top_right, c.horizontal, c.top_separator, g.cols));
        } else if k == 2 * g.rows {
            assert(lines[k] == grid_rule(c.bottom_left, c.bottom_right, c.horizontal, c.bottom_separator, g.cols));
        } else {
            assert(lines[k] == body[k - 1]);
            assert((k - 1) % 2 == 1);
            assert(lines[k] == grid_rule(c.left_separator, c.right_separator, c.horizontal, c.cross, g.cols));
        }
    }
    assert forall|k: int| 0 <= k <= 2 * g.rows implies ((#[trigger] lines[k])[0] == c.vertical <==> k % 2 == 1) by {
        if k == 0 {
            assert(lines[k][0] == c.top_left);
        } else if k == 2 * g.rows {
            assert(lines[k][0] == c.bottom_left);
        } else if k % 2 == 1 {
            assert(lines[k] == body[k - 1]);
            assert((k - 1) % 2 == 0);
            assert(lines[k][0] == c.vertical);
        } else {
            assert(lines[k] == body[k - 1]);
            assert((k - 1) % 2 == 1);
            assert(lines[k][0] == c.left_separator);
        }
    }
    assert forall|i: int| 0 <= i < g.rows implies #[trigger] lines[2 * i + 1] == grid_row(c.vertical, g.cells[i]) by {
        assert(lines[2 * i + 1] == body[2 * i]);
        assert((2 * i) % 2 == 0);
        assert((2 * i) / 2 == i);
    }
}

} // verus!
