//! Chart layout: the glyph grid of a line chart and the text lines of bar and line charts,
//! from values already placed on whole rows and columns.
use vstd::prelude::*;
use crate::text::{concat_lines, lemma_concat_step, pad_right, push_all, push_padded, push_repeat, repeat_char, spaces};

verus! {

/// The kind of chart.
#[derive(Debug, Clone, Copy, PartialEq, Eq, Structural)]
pub enum ChartType {
    Bar,
    Line,
}

/// The columns between two neighbouring points of a line chart.
pub const SLOT_WIDTH: usize = 12;

/// The glyph of a full bar.
pub const BAR_WIDTH: usize = 40;

/// The glyph that marks a data point.
pub const POINT: char = '●';

/// `|a - b|`.
pub open spec fn dist(a: nat, b: nat) -> nat {
    if a >= b {
        (a - b) as nat
    } else {
        (b - a) as nat
    }
}

/// The steps taken to walk from one point to the next: the larger of the horizontal and the
/// vertical distance.
pub open spec fn seg_steps(y1: nat, y2: nat) -> nat {
    if dist(y1, y2) > SLOT_WIDTH {
        dist(y1, y2)
    } else {
        SLOT_WIDTH as nat
    }
}

/// The row reached after `step` of the steps from row `y1` to row `y2`, the vertical move
/// rounded toward `y1`.
pub open spec fn seg_row(y1: nat, y2: nat, step: nat) -> nat {
    if y2 >= y1 {
        y1 + dist(y1, y2) * step / seg_steps(y1, y2)
    } else {
        (y1 - dist(y1, y2) * step / seg_steps(y1, y2)) as nat
    }
}

/// The connector glyph: a rule when level, `/` when rising (toward row 0), `\` when falling.
pub open spec fn seg_glyph(y1: nat, y2: nat) -> char {
    if y1 == y2 {
        '─'
    } else if y2 < y1 {
        '/'
    } else {
        '\\'
    }
}

/// A canvas of `height` rows of `width` blanks.
pub open spec fn blank_canvas(height: nat, width: nat) -> Seq<Seq<char>> {
    Seq::new(height, |_r: int| spaces(width))
}

/// The column, counted from the segment's start, reached after `step` of the steps from row
/// `y1` to row `y2`: the slot's width spread evenly over the steps, rounded down.
pub open spec fn seg_col(y1: nat, y2: nat, step: nat) -> nat {
    ((SLOT_WIDTH * step) as int / seg_steps(y1, y2) as int) as nat
}

/// Whether one of the steps `1 .. s` of the walk from row `y1` to row `y2` lands on row `r`,
/// column `dx` from the segment's start.
pub open spec fn on_connector(y1: nat, y2: nat, r: int, dx: int, s: nat) -> bool {
    exists|k: nat| 1 <= k < s && #[trigger] seg_col(y1, y2, k) == dx && seg_row(y1, y2, k) == r
}

/// The canvas `c` after drawing segment `i` of the points `ys`, with its connectors drawn up
/// to (not including) step `s`: the start point, the end point when the segment is the last,
/// then the connectors over them. The connectors follow the straight line between the two
/// points and stay between their columns.
pub open spec fn segment_drawn(c: Seq<Seq<char>>, ys: Seq<usize>, i: nat, s: nat) -> Seq<Seq<char>> {
    let x1 = SLOT_WIDTH * i;
    let y1 = ys[i as int] as nat;
    let y2 = ys[i + 1 as int] as nat;
    let last = i + 2 == ys.len();
    Seq::new(
        c.len(),
        |r: int|
            Seq::new(
                c[r].len(),
                |x: int|
                    if on_connector(y1, y2, r, x - x1, s) {
                        seg_glyph(y1, y2)
                    } else if (r == y1 && x == x1) || (last && r == y2 && x == x1 + SLOT_WIDTH) {
                        POINT
                    } else {
                        c[r][x]
                    },
            ),
    )
}

/// The canvas after the first `k` segments.
pub open spec fn plotted(ys: Seq<usize>, height: nat, k: nat) -> Seq<Seq<char>>
    decreases k,
{
    if k == 0 {
        blank_canvas(height, (SLOT_WIDTH * ys.len()) as nat)
    } else {
        let prev = plotted(ys, height, (k - 1) as nat);
        segment_drawn(prev, ys, (k - 1) as nat, seg_steps(ys[k - 1] as nat, ys[k as int] as nat))
    }
}

/// The finished canvas of a line chart whose points sit on rows `ys`, one every
/// `SLOT_WIDTH` columns.
pub open spec fn line_canvas(ys: Seq<usize>, height: nat) -> Seq<Seq<char>> {
    if ys.len() == 0 {
        blank_canvas(height, 0)
    } else {
        plotted(ys, height, (ys.len() - 1) as nat)
    }
}

/// The width of the value-label column of a line chart.
pub const AXIS_LABEL_WIDTH: usize = 10;

/// The width of a label under a line chart.
pub const X_LABEL_WIDTH: usize = 11;

/// The width of a label in front of a bar.
pub const BAR_LABEL_WIDTH: usize = 6;

/// The value label of canvas row `i` of `height`: the top, middle and bottom rows carry
/// one, checked in that order; the others none.
pub open spec fn y_label(i: nat, height: nat, labels: Seq<Seq<char>>) -> Seq<char> {
    if i == 0 {
        labels[0]
    } else if i == height / 2 {
        labels[1]
    } else if i == height - 1 {
        labels[2]
    } else {
        Seq::empty()
    }
}

/// One canvas row as printed: its label padded to `AXIS_LABEL_WIDTH`, the axis, a blank,
/// the glyphs.
pub open spec fn canvas_line(label: Seq<char>, row: Seq<char>) -> Seq<char> {
    pad_right(label, AXIS_LABEL_WIDTH as nat) + seq!['│', ' '] + row
}

/// The horizontal axis under a canvas `width` columns wide.
pub open spec fn x_axis(width: nat) -> Seq<char> {
    spaces(AXIS_LABEL_WIDTH as nat) + seq!['└'] + repeat_char('─', width)
}

/// The labels under a line chart, each padded to `X_LABEL_WIDTH`, one blank between them,
/// after an indent of `SLOT_WIDTH`.
pub open spec fn x_labels(labels: Seq<Seq<char>>) -> Seq<char> {
    spaces(SLOT_WIDTH as nat) + crate::text::join_with(
        labels.map_values(|l: Seq<char>| pad_right(l, X_LABEL_WIDTH as nat)),
        ' ',
    )
}

/// The printed lines of a line chart: the canvas rows with their value labels, the axis, the
/// labels.
pub open spec fn line_chart_lines(
    ys: Seq<usize>,
    height: nat,
    y_labels: Seq<Seq<char>>,
    labels: Seq<Seq<char>>,
) -> Seq<Seq<char>> {
    let c = line_canvas(ys, height);
    Seq::new(height, |i: int| canvas_line(y_label(i as nat, height, y_labels), c[i])).push(
        x_axis((SLOT_WIDTH * ys.len()) as nat),
    ).push(x_labels(labels))
}

/// One line of a bar chart: the label padded to `BAR_LABEL_WIDTH`, the axis, the bar of
/// `len` blocks padded to `BAR_WIDTH`, a blank, the value as text.
pub open spec fn bar_line(label: Seq<char>, len: nat, value: Seq<char>) -> Seq<char> {
    pad_right(label, BAR_LABEL_WIDTH as nat) + seq![' ', '│', ' '] + pad_right(repeat_char('█', len), BAR_WIDTH as nat)
        + seq![' '] + value
}

/// A chart's title block: the title, a rule of `=` as long, an empty line.
pub open spec fn title_block(title: Seq<char>) -> Seq<char> {
    title + seq!['\n'] + repeat_char('=', title.len()) + seq!['\n', '\n']
}

/// Writes `ch` at row `r`, column `x` of `canvas`.
fn put(canvas: &mut Vec<Vec<char>>, r: usize, x: usize, ch: char)
    requires
        r < old(canvas).len(),
        x < old(canvas)[r as int].len(),
    ensures
        final(canvas).len() == old(canvas).len(),
        forall|k: int| 0 <= k < old(canvas).len() ==> (#[trigger] final(canvas)[k]).len() == old(canvas)[k].len(),
        final(canvas).deep_view() == old(canvas).deep_view().update(
            r as int,
            old(canvas).deep_view()[r as int].update(x as int, ch),
        ),
{
    canvas[r].set(x, ch);
    proof {
        let want = old(canvas).deep_view().update(r as int, old(canvas).deep_view()[r as int].update(x as int, ch));
        assert(canvas[r as int]@ =~= old(canvas).deep_view()[r as int].update(x as int, ch));
        assert forall|k: int| 0 <= k < canvas.len() implies #[trigger] canvas.deep_view()[k] == want[k] by {
            if k != r as int {
                assert(canvas[k] == old(canvas)[k]);
            }
        }
        assert(canvas.deep_view() =~= want);
    }
}

/// The row `step` steps along the walk from row `y1` to row `y2`.
fn step_row(y1: usize, y2: usize, step: usize) -> (r: usize)
    requires
        step <= seg_steps(y1 as nat, y2 as nat),
    ensures
        r == seg_row(y1 as nat, y2 as nat, step as nat),
        y1 <= y2 ==> y1 <= r <= y2,
        y2 < y1 ==> y2 <= r <= y1,
{
    let d: usize = if y2 >= y1 {
        y2 - y1
    } else {
        y1 - y2
    };
    let mag: usize;
    if d > SLOT_WIDTH {
        mag = step;
        assert((d as int) * (step as int) / (d as int) == step as int) by (nonlinear_arith)
            requires
                d > 0,
        ;
    } else {
        assert((d as int) * (step as int) <= 144) by (nonlinear_arith)
            requires
                d <= 12,
                step <= 12,
        ;
        mag = d * step / SLOT_WIDTH;
        assert((d as int) * (step as int) / 12 <= d as int) by (nonlinear_arith)
            requires
                step <= 12,
        ;
    }
    if y2 >= y1 {
        y1 + mag
    } else {
        y1 - mag
    }
}

/// Draws segment `i` of the points `ys` on `canvas`.
fn draw_segment(canvas: &mut Vec<Vec<char>>, ys: &Vec<usize>, i: usize, height: usize, width: usize)
    requires
        i + 1 < ys.len(),
        width == SLOT_WIDTH * ys.len(),
        old(canvas).len() == height,
        forall|r: int| 0 <= r < height ==> (#[trigger] old(canvas)[r]).len() == width,
        forall|k: int| 0 <= k < ys.len() ==> #[trigger] ys[k] < height,
    ensures
        final(canvas).len() == height,
        forall|r: int| 0 <= r < height ==> (#[trigger] final(canvas)[r]).len() == width,
        final(canvas).deep_view() == segment_drawn(
            old(canvas).deep_view(),
            ys@,
            i as nat,
            seg_steps(ys[i as int] as nat, ys[i + 1] as nat),
        ),
{
    let ghost start = canvas.deep_view();
    let x1 = SLOT_WIDTH * i;
    let y1 = ys[i];
    let y2 = ys[i + 1];
    put(canvas, y1, x1, POINT);
    if i + 2 == ys.len() {
        put(canvas, y2, x1 + SLOT_WIDTH, POINT);
    }
    proof {
        let want = segment_drawn(start, ys@, i as nat, 1);
        assert forall|r: int| 0 <= r < height implies #[trigger] start[r].len() == width by {
            assert(start[r] == old(canvas)[r]@);
        }
        assert forall|r: int| 0 <= r < height implies #[trigger] canvas.deep_view()[r] =~= want[r] by {}
        assert(canvas.deep_view() =~= want);
    }
    let steps: usize = if y2 >= y1 && y2 - y1 > SLOT_WIDTH {
        y2 - y1
    } else if y1 > y2 && y1 - y2 > SLOT_WIDTH {
        y1 - y2
    } else {
        SLOT_WIDTH
    };
    let glyph = if y1 == y2 {
        '─'
    } else if y2 < y1 {
        '/'
    } else {
        '\\'
    };
    let mut step: usize = 1;
    while step < steps
        invariant
            1 <= step <= steps,
            steps == seg_steps(y1 as nat, y2 as nat),
            glyph == seg_glyph(y1 as nat, y2 as nat),
            x1 == SLOT_WIDTH * i,
            y1 == ys[i as int],
            y2 == ys[i + 1],
            i + 1 < ys.len(),
            width == SLOT_WIDTH * ys.len(),
            y1 < height,
            y2 < height,
            canvas.len() == height,
            forall|r: int| 0 <= r < height ==> (#[trigger] canvas[r]).len() == width,
            start.len() == height,
            forall|r: int| 0 <= r < height ==> (#[trigger] start[r]).len() == width,
            canvas.deep_view() == segment_drawn(start, ys@, i as nat, step as nat),
        decreases steps - step,
    {
        let ghost before = canvas.deep_view();
        let ghost old_step = step as nat;
        let y = step_row(y1, y2, step);
        let col = step_col(step, steps);
        assert(x1 + col < width) by (nonlinear_arith)
            requires
                x1 == 12 * i,
                width == 12 * ys.len(),
                i + 1 < ys.len(),
                col < 12,
        ;
        put(canvas, y, x1 + col, glyph);
        step = step + 1;
        proof {
            let yy1 = y1 as nat;
            let yy2 = y2 as nat;
            let want = segment_drawn(start, ys@, i as nat, step as nat);
            assert forall|r: int| 0 <= r < height implies #[trigger] canvas.deep_view()[r] =~= want[r] by {
                assert(canvas.deep_view()[r].len() == width);
                assert(want[r].len() == width);
                assert forall|x: int| 0 <= x < width implies canvas.deep_view()[r][x] == want[r][x] by {
                    if r == y as int && x == x1 + col {
                        assert(seg_col(yy1, yy2, old_step) == x - x1);
                        assert(on_connector(yy1, yy2, r, x - x1, step as nat));
                    } else {
                        assert(canvas.deep_view()[r][x] == before[r][x]);
                        if on_connector(yy1, yy2, r, x - x1, step as nat) {
                            let k = choose|k: nat|
                                1 <= k < step && #[trigger] seg_col(yy1, yy2, k) == x - x1 && seg_row(yy1, yy2, k) == r;
                            assert(k != old_step);
                            assert(on_connector(yy1, yy2, r, x - x1, old_step));
                        }
                        if on_connector(yy1, yy2, r, x - x1, old_step) {
                            let k = choose|k: nat|
                                1 <= k < old_step && #[trigger] seg_col(yy1, yy2, k) == x - x1 && seg_row(yy1, yy2, k) == r;
                            assert(on_connector(yy1, yy2, r, x - x1, step as nat));
                        }
                    }
                }
            }
            assert(canvas.deep_view() =~= want);
        }
    }
}

/// The column, from the segment's start, of step `step` of `steps`.
fn step_col(step: usize, steps: usize) -> (r: usize)
    requires
        1 <= step < steps,
    ensures
        r as int == (SLOT_WIDTH * step) as int / steps as int,
        r < SLOT_WIDTH,
{
    let q: u128 = (SLOT_WIDTH as u128) * (step as u128) / (steps as u128);
    assert((12 * (step as int)) / (steps as int) < 12) by (nonlinear_arith)
        requires
            1 <= step < steps,
    ;
    q as usize
}

/// The canvas of a line chart whose points sit on rows `ys` of `height`, one point every
/// `SLOT_WIDTH` columns.
pub fn plot_line(ys: &Vec<usize>, height: usize) -> (r: Vec<Vec<char>>)
    requires
        SLOT_WIDTH * ys.len() <= usize::MAX,
        forall|k: int| 0 <= k < ys.len() ==> #[trigger] ys[k] < height,
    ensures
        r.len() == height,
        forall|k: int| 0 <= k < height ==> (#[trigger] r[k]).len() == SLOT_WIDTH * ys.len(),
        r.deep_view() == line_canvas(ys@, height as nat),
{
    let width = SLOT_WIDTH * ys.len();
    let mut canvas: Vec<Vec<char>> = Vec::new();
    let mut r: usize = 0;
    while r < height
        invariant
            r <= height,
            canvas.len() == r,
            forall|k: int| 0 <= k < r ==> (#[trigger] canvas[k])@ == spaces(width as nat),
        decreases height - r,
    {
        let mut row: Vec<char> = Vec::new();
        let mut x: usize = 0;
        while x < width
            invariant
                x <= width,
                row@ == spaces(x as nat),
            decreases width - x,
        {
            row.push(' ');
            x = x + 1;
            assert(row@ =~= spaces(x as nat));
        }
        canvas.push(row);
        r = r + 1;
    }
    assert forall|k: int| 0 <= k < height implies #[trigger] canvas.deep_view()[k] =~= spaces(width as nat) by {
        assert(canvas.deep_view()[k] =~= canvas[k]@);
    }
    assert(canvas.deep_view() =~= blank_canvas(height as nat, width as nat));
    if ys.len() == 0 {
        return canvas;
    }
    let mut i: usize = 0;
    while i + 1 < ys.len()
        invariant
            1 <= ys.len(),
            i + 1 <= ys.len(),
            width == SLOT_WIDTH * ys.len(),
            forall|k: int| 0 <= k < ys.len() ==> #[trigger] ys[k] < height,
            canvas.len() == height,
            forall|k: int| 0 <= k < height ==> (#[trigger] canvas[k]).len() == width,
            canvas.deep_view() == plotted(ys@, height as nat, i as nat),
        decreases ys.len() - i,
    {
        draw_segment(&mut canvas, ys, i, height, width);
        i = i + 1;
    }
    canvas
}

/// The printed lines of a line chart: `ys` gives each point's canvas row (row 0 at the top),
/// `y_labels` the value labels of the top, middle and bottom rows, `labels` the point labels.
pub fn line_chart(ys: &Vec<usize>, height: usize, y_labels: &Vec<String>, labels: &Vec<String>) -> (r: Vec<String>)
    requires
        SLOT_WIDTH * ys.len() <= usize::MAX,
        forall|k: int| 0 <= k < ys.len() ==> #[trigger] ys[k] < height,
        y_labels.len() == 3,
    ensures
        r.deep_view() == line_chart_lines(ys@, height as nat, y_labels.deep_view(), labels.deep_view()),
{
    let canvas = plot_line(ys, height);
    let ghost c = canvas.deep_view();
    let ghost yl = y_labels.deep_view();
    let mut out: Vec<String> = Vec::new();
    let mut i: usize = 0;
    while i < height
        invariant
            i <= height,
            c == canvas.deep_view(),
            yl == y_labels.deep_view(),
            y_labels.len() == 3,
            canvas.len() == height,
            out.len() == i,
            forall|k: int| 0 <= k < i ==> #[trigger] out[k]@ == canvas_line(y_label(k as nat, height as nat, yl), c[k]),
        decreases height - i,
    {
        let mut line = String::new();
        if i == 0 {
            push_padded(&mut line, y_labels[0].as_str(), AXIS_LABEL_WIDTH);
        } else if i == height / 2 {
            push_padded(&mut line, y_labels[1].as_str(), AXIS_LABEL_WIDTH);
        } else if i == height - 1 {
            push_padded(&mut line, y_labels[2].as_str(), AXIS_LABEL_WIDTH);
        } else {
            push_padded(&mut line, "", AXIS_LABEL_WIDTH);
            proof {
                reveal_strlit("");
            }
        }
        assert(line@ == pad_right(y_label(i as nat, height as nat, yl), AXIS_LABEL_WIDTH as nat));
        line.push('│');
        line.push(' ');
        let ghost head = line@;
        let row = &canvas[i];
        let mut x: usize = 0;
        while x < row.len()
            invariant
                x <= row.len(),
                line@ == head + row@.take(x as int),
            decreases row.len() - x,
        {
            line.push(row[x]);
            x = x + 1;
            assert(line@ =~= head + row@.take(x as int));
        }
        assert(row@.take(row.len() as int) =~= row@);
        assert(c[i as int] == row@);
        assert(line@ =~= canvas_line(y_label(i as nat, height as nat, yl), c[i as int]));
        out.push(line);
        i = i + 1;
    }
    let mut axis = String::new();
    push_repeat(&mut axis, ' ', AXIS_LABEL_WIDTH);
    axis.push('└');
    push_repeat(&mut axis, '─', SLOT_WIDTH * ys.len());
    assert(axis@ =~= x_axis((SLOT_WIDTH * ys.len()) as nat));
    out.push(axis);
    let under = label_row(labels);
    out.push(under);
    proof {
        let want = line_chart_lines(ys@, height as nat, yl, labels.deep_view());
        assert(out.deep_view() =~= want);
    }
    out
}

/// The row of point labels under a line chart.
fn label_row(labels: &Vec<String>) -> (r: String)
    ensures
        r@ == x_labels(labels.deep_view()),
{
    let ghost parts = labels.deep_view().map_values(|l: Seq<char>| pad_right(l, X_LABEL_WIDTH as nat));
    let mut out = String::new();
    push_repeat(&mut out, ' ', SLOT_WIDTH);
    let ghost head = out@;
    let mut i: usize = 0;
    while i < labels.len()
        invariant
            i <= labels.len(),
            parts == labels.deep_view().map_values(|l: Seq<char>| pad_right(l, X_LABEL_WIDTH as nat)),
            out@ == head + crate::text::join_with(parts.take(i as int), ' '),
        decreases labels.len() - i,
    {
        proof {
            crate::text::lemma_join_step(parts, i as int, ' ');
        }
        if i > 0 {
            out.push(' ');
        }
        push_padded(&mut out, labels[i].as_str(), X_LABEL_WIDTH);
        i = i + 1;
        assert(out@ =~= head + crate::text::join_with(parts.take(i as int), ' '));
    }
    assert(parts.take(labels.len() as int) =~= parts);
    out
}

/// One line of a bar chart: `label`, a bar of `len` blocks, and the value already written as
/// text.
pub fn bar_row(label: &str, len: usize, value: &str) -> (r: String)
    ensures
        r@ == bar_line(label@, len as nat, value@),
{
    let mut out = String::new();
    push_padded(&mut out, label, BAR_LABEL_WIDTH);
    out.push(' ');
    out.push('│');
    out.push(' ');
    let mut bar = String::new();
    push_repeat(&mut bar, '█', len);
    push_padded(&mut out, bar.as_str(), BAR_WIDTH);
    out.push(' ');
    push_all(&mut out, value);
    assert(out@ =~= bar_line(label@, len as nat, value@));
    out
}

/// The title block printed above a chart.
pub fn title_lines(title: &str) -> (r: String)
    ensures
        r@ == title_block(title@),
{
    let mut out = String::new();
    push_all(&mut out, title);
    out.push('\n');
    push_repeat(&mut out, '=', title.unicode_len());
    out.push('\n');
    out.push('\n');
    assert(out@ =~= title_block(title@));
    out
}

/// A chart's full text: the title block when there is a title, then each line followed by a
/// line break.
pub fn chart_text(title: Option<&str>, lines: &Vec<String>) -> (r: String)
    ensures
        r@ == match title {
            Some(t) => title_block(t@),
            None => Seq::empty(),
        } + concat_lines(lines.deep_view().map_values(|l: Seq<char>| l + seq!['\n'])),
{
    let mut out = match title {
        Some(t) => title_lines(t),
        None => String::new(),
    };
    let ghost head = out@;
    let ghost parts = lines.deep_view().map_values(|l: Seq<char>| l + seq!['\n']);
    let mut k: usize = 0;
    while k < lines.len()
        invariant
            k <= lines.len(),
            parts == lines.deep_view().map_values(|l: Seq<char>| l + seq!['\n']),
            out@ == head + concat_lines(parts.take(k as int)),
        decreases lines.len() - k,
    {
        proof {
            lemma_concat_step(parts, k as int);
            assert(parts[k as int] == lines[k as int]@ + seq!['\n']);
        }
        push_all(&mut out, lines[k].as_str());
        out.push('\n');
        k = k + 1;
        assert(out@ =~= head + concat_lines(parts.take(k as int)));
    }
    assert(parts.take(lines.len() as int) =~= parts);
    out
}

} // verus!
