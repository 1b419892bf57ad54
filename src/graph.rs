//! The week-long swell chart: one column per forecast record, drawn as a step
//! line over dotted fill, with a legend of the height range on the left.
use vstd::prelude::*;
use vstd::string::*;
use std::cmp::Ordering;
use itertools::Itertools;
use crate::base::{
    lemma_models_concat, lemma_models_push, models, painted, plain, Color, Line, Span,
    SpanModel,
};
use crate::border::{
    line_models, Border, RenderError, INTERIOR_VIEWPORT_WIDTH,
};
use crate::forecast::{date_label_of, length_symbol, Forecast, LocalTime, UnitLength};
use crate::text::{
    align_right, blank, hundredths_display, hundredths_text, repeat_char, repeat_glyph,
    right_aligned, spaces,
};

verus! {

/// The chart's height in rows.
pub const SWELL_GRAPH_HEIGHT: usize = 10;

/// Headroom above the tallest forecast, in hundredths of the unit.
pub open spec fn height_buffer(u: UnitLength) -> nat {
    match u {
        UnitLength::Feet => 100,
        UnitLength::Meters => 50,
    }
}

/// The largest `max_breaking_height` of the records (0 when there are none).
pub open spec fn max_breaking(fs: Seq<Forecast>) -> nat
    decreases fs.len(),
{
    if fs.len() == 0 {
        0
    } else {
        let m = max_breaking(fs.drop_last());
        let h = fs.last().swell.max_breaking_height as nat;
        if h > m {
            h
        } else {
            m
        }
    }
}

/// The unit of the chart: that of the first record.
pub open spec fn graph_unit(fs: Seq<Forecast>) -> UnitLength {
    fs[0].swell.unit
}

/// The height at the top of the chart: the tallest forecast plus headroom.
pub open spec fn graph_top(fs: Seq<Forecast>) -> nat {
    max_breaking(fs) + height_buffer(graph_unit(fs))
}

/// The row count that a height of `h` reaches on a chart whose range is 0 to
/// `top`: `h / top` of the chart's height, rounded to the nearest row.
pub open spec fn scaled_row(h: nat, top: nat) -> nat
    recommends
        top > 0,
{
    ((20 * h + top) / (2 * top)) as nat
}

/// The row, counted from the top, on which the wave line of a height `h` is
/// drawn; a height above the range is drawn on the top row.
pub open spec fn glyph_row(h: nat, top: nat) -> nat {
    let s = scaled_row(h, top);
    if s <= SWELL_GRAPH_HEIGHT {
        (SWELL_GRAPH_HEIGHT - s) as nat
    } else {
        0
    }
}

/// The glyph row of one record.
pub open spec fn record_row(f: Forecast, top: nat) -> nat {
    glyph_row(f.swell.abs_max_breaking_height as nat, top)
}

/// The color of a record, by its ratings: flat is red, a clean swell green,
/// anything between blue.
pub open spec fn rating_color(f: Forecast) -> Color {
    if f.solid_rating == 0 {
        Color::Red
    } else if f.faded_rating == 0 {
        Color::Green
    } else {
        Color::Blue
    }
}

/// How `a` compares with `b`.
pub open spec fn ordering(a: int, b: int) -> Ordering {
    if a < b {
        Ordering::Less
    } else if a == b {
        Ordering::Equal
    } else {
        Ordering::Greater
    }
}

/// The glyph between two bins, on one row, from how the right bin's row
/// compares with the left bin's (`step`), with the row drawn (`right`), and
/// how the left bin's row compares with the row drawn (`left`). Rows count
/// from the top.
pub open spec fn boundary_glyph(step: Ordering, right: Ordering, left: Ordering) -> char {
    match (step, right, left) {
        (_, Ordering::Greater, Ordering::Greater) => ' ',
        (_, Ordering::Less, Ordering::Less) => '.',
        (_, Ordering::Greater, Ordering::Less) | (_, Ordering::Less, Ordering::Greater) => '│',
        (Ordering::Equal, _, _) => '─',
        (Ordering::Greater, Ordering::Equal, _) => '└',
        (Ordering::Less, Ordering::Equal, _) => '┌',
        (Ordering::Greater, _, Ordering::Equal) => '┐',
        (Ordering::Less, _, Ordering::Equal) => '┘',
    }
}

/// The glyph on row `y` between a left bin drawn on row `left` and a right bin
/// drawn on row `right`.
pub open spec fn glyph_between(right: int, left: int, y: int) -> char {
    boundary_glyph(ordering(right, left), ordering(right, y), ordering(left, y))
}

/// The same glyph seen in a mirror: corners swap left and right.
pub open spec fn mirrored(c: char) -> char {
    if c == '└' {
        '┘'
    } else if c == '┘' {
        '└'
    } else if c == '┌' {
        '┐'
    } else if c == '┐' {
        '┌'
    } else {
        c
    }
}

/// The cells of a bin drawn on row `row`, on row `y`: the wave line on its
/// own row, dots below it, blanks above.
pub open spec fn bin_text(row: nat, y: nat, bw: nat) -> Seq<char> {
    if row == y {
        repeat_char('─', bw)
    } else if row < y {
        repeat_char('.', bw)
    } else {
        spaces(bw)
    }
}

/// The width of the legend's numbers: that of the wider of its two labels.
pub open spec fn legend_number_width(top: nat) -> nat {
    let a = hundredths_display(top).len();
    let b = hundredths_display(0).len();
    if a >= b {
        a
    } else {
        b
    }
}

/// A legend label: the number right-aligned, then the unit.
pub open spec fn legend_label(num: Seq<char>, top: nat, unit: UnitLength) -> Seq<char> {
    seq![' '] + right_aligned(num, legend_number_width(top)) + seq![' '] + length_symbol(unit)
        + seq![' ']
}

/// The legend column's width.
pub open spec fn legend_width(top: nat, unit: UnitLength) -> nat {
    legend_number_width(top) + length_symbol(unit).len() + 3
}

/// The legend cell of row `y`: the top of the range on the first row, 0 on
/// the last, blanks between.
pub open spec fn legend_text(top: nat, unit: UnitLength, y: int) -> Seq<char> {
    if y == 0 {
        legend_label(hundredths_display(top), top, unit)
    } else if y == SWELL_GRAPH_HEIGHT - 1 {
        legend_label(hundredths_display(0), top, unit)
    } else {
        spaces(legend_width(top, unit))
    }
}

/// The legend width of the chart of `fs`.
pub open spec fn graph_legend_width(fs: Seq<Forecast>) -> nat {
    legend_width(graph_top(fs), graph_unit(fs))
}

/// Whether the legend and the boundaries between the bins fit in the interior.
pub open spec fn graph_fits(fs: Seq<Forecast>) -> bool {
    graph_legend_width(fs) + fs.len() - 1 <= INTERIOR_VIEWPORT_WIDTH
}

/// The width of every bin: what the legend and boundaries leave, shared evenly.
pub open spec fn graph_bin_width(fs: Seq<Forecast>) -> nat {
    ((INTERIOR_VIEWPORT_WIDTH - graph_legend_width(fs) - (fs.len() - 1)) / (fs.len() as int)) as nat
}

/// What integer division leaves over, placed after the last bin.
pub open spec fn graph_margin(fs: Seq<Forecast>) -> nat {
    (INTERIOR_VIEWPORT_WIDTH - (graph_legend_width(fs) + (fs.len() - 1) + fs.len()
        * graph_bin_width(fs))) as nat
}

/// The bins on row `y`, one per record, each in its record's color.
pub open spec fn graph_bins(fs: Seq<Forecast>, y: nat) -> Seq<SpanModel> {
    Seq::new(
        fs.len(),
        |x: int|
            painted(
                bin_text(record_row(fs[x], graph_top(fs)), y, graph_bin_width(fs)),
                rating_color(fs[x]),
            ),
    )
}

/// The boundaries on row `y`, one between each two bins, in the color of the
/// bin on their right.
pub open spec fn graph_bounds(fs: Seq<Forecast>, y: nat) -> Seq<SpanModel> {
    Seq::new(
        (fs.len() - 1) as nat,
        |i: int|
            painted(
                seq![
                    glyph_between(
                        record_row(fs[i + 1], graph_top(fs)) as int,
                        record_row(fs[i], graph_top(fs)) as int,
                        y as int,
                    ),
                ],
                rating_color(fs[i + 1]),
            ),
    )
}

/// Items of `a` and `b` in turn, starting with `a`; once one runs out, the
/// rest of the other.
pub open spec fn interleave<A>(a: Seq<A>, b: Seq<A>) -> Seq<A>
    decreases a.len() + b.len(),
{
    if a.len() == 0 {
        b
    } else {
        seq![a[0]] + interleave(b, a.drop_first())
    }
}

/// Row `y` of the chart: legend, bins and boundaries in turn, margin.
pub open spec fn graph_line(fs: Seq<Forecast>, y: nat) -> Seq<SpanModel> {
    seq![plain(legend_text(graph_top(fs), graph_unit(fs), y as int))] + interleave(
        graph_bins(fs, y),
        graph_bounds(fs, y),
    ) + seq![plain(spaces(graph_margin(fs)))]
}

/// The chart's interior lines, top row first.
#[verifier::opaque]
pub open spec fn graph_lines(fs: Seq<Forecast>) -> Seq<Seq<SpanModel>> {
    Seq::new(SWELL_GRAPH_HEIGHT as nat, |y: int| graph_line(fs, y as nat))
}

/// The earliest local time among the records.
pub open spec fn earliest(fs: Seq<Forecast>) -> int
    decreases fs.len(),
{
    if fs.len() <= 1 {
        fs[0].local_timestamp.seconds()
    } else {
        let m = earliest(fs.drop_last());
        let t = fs.last().local_timestamp.seconds();
        if t < m {
            t
        } else {
            m
        }
    }
}

/// The latest local time among the records.
pub open spec fn latest(fs: Seq<Forecast>) -> int
    decreases fs.len(),
{
    if fs.len() <= 1 {
        fs[0].local_timestamp.seconds()
    } else {
        let m = latest(fs.drop_last());
        let t = fs.last().local_timestamp.seconds();
        if t > m {
            t
        } else {
            m
        }
    }
}

/// The chart's title: the first and last day it covers.
pub open spec fn graph_title(fs: Seq<Forecast>) -> Seq<char> {
    date_label_of(earliest(fs)) + seq![' ', '–', ' '] + date_label_of(latest(fs))
}

/// Relies on itertools' `Itertools::interleave`: items of `a` and `b` in turn,
/// starting with `a`, and once one runs out the rest of the other.
#[verifier::external_body]
fn interleave_spans(a: Vec<Span>, b: Vec<Span>) -> (r: Vec<Span>)
    ensures
        r@ == interleave(a@, b@),
{
    a.into_iter().interleave(b).collect()
}

pub proof fn lemma_interleave_models(a: Seq<Span>, b: Seq<Span>)
    ensures
        models(interleave(a, b)) == interleave(models(a), models(b)),
    decreases a.len() + b.len(),
{
    if a.len() > 0 {
        lemma_interleave_models(b, a.drop_first());
        assert(models(a).drop_first() =~= models(a.drop_first()));
        lemma_models_concat(seq![a[0]], interleave(b, a.drop_first()));
        assert(models(seq![a[0]]) =~= seq![models(a)[0]]);
    }
}

/// The swell chart of a run of forecast records.
pub struct Graph<'a> {
    pub forecast: &'a [Forecast],
    pub min_swell_height: u64,
    pub max_swell_height: u64,
    pub unit: UnitLength,
}

impl<'a> Graph<'a> {
    /// The chart's range and unit follow from its records, and its columns fit.
    pub open spec fn wf(&self) -> bool {
        let fs = self.forecast@;
        &&& fs.len() > 0
        &&& self.min_swell_height == 0
        &&& self.max_swell_height == graph_top(fs)
        &&& self.unit == graph_unit(fs)
        &&& graph_fits(fs)
    }

    /// The chart of `forecast`. Fails with `EmptyInput` when there are no
    /// records, and with `InvariantViolation` when the legend and one column
    /// per record cannot fit in the interior width.
    pub fn new(forecast: &'a [Forecast]) -> (r: Result<Graph<'a>, RenderError>)
        ensures
            r is Ok <==> forecast@.len() > 0 && graph_fits(forecast@),
            match r {
                Ok(g) => g.forecast@ == forecast@ && g.wf(),
                Err(e) => if forecast@.len() == 0 {
                    e == RenderError::EmptyInput
                } else {
                    e == RenderError::InvariantViolation
                },
            },
    {
        let n = forecast.len();
        if n == 0 {
            return Err(RenderError::EmptyInput);
        }
        let unit = forecast[0].swell.unit;
        let buffer: u64 = match unit {
            UnitLength::Feet => 100,
            UnitLength::Meters => 50,
        };
        let mut max: u32 = 0;
        let mut i: usize = 0;
        while i < n
            invariant
                i <= n,
                n == forecast@.len(),
                max as nat == max_breaking(forecast@.take(i as int)),
            decreases n - i,
        {
            assert(forecast@.take(i + 1).drop_last() =~= forecast@.take(i as int));
            let h = forecast[i].swell.max_breaking_height;
            if h > max {
                max = h;
            }
            i = i + 1;
        }
        assert(forecast@.take(n as int) =~= forecast@);
        let graph = Graph {
            forecast,
            min_swell_height: 0,
            max_swell_height: max as u64 + buffer,
            unit,
        };
        let legend = graph.legend_width();
        if legend > INTERIOR_VIEWPORT_WIDTH || n - 1 > INTERIOR_VIEWPORT_WIDTH - legend {
            return Err(RenderError::InvariantViolation);
        }
        Ok(graph)
    }

    /// The width of the legend column.
    fn legend_width(&self) -> (r: usize)
        requires
            self.max_swell_height == graph_top(self.forecast@),
            self.min_swell_height == 0,
            self.unit == graph_unit(self.forecast@),
            self.forecast@.len() > 0,
        ensures
            r == graph_legend_width(self.forecast@),
            r <= 18,
    {
        let unit_str = self.unit.as_str();
        let max_str = hundredths_text(self.max_swell_height);
        let min_str = hundredths_text(self.min_swell_height);
        let a = max_str.as_str().unicode_len();
        let b = min_str.as_str().unicode_len();
        let w = if a >= b {
            a
        } else {
            b
        };
        proof {
            reveal_strlit("ft");
            reveal_strlit("m");
            assert(length_symbol(self.unit).len() <= 2);
            lemma_max_breaking_bound(self.forecast@);
            crate::text::lemma_hundredths_display_short(self.max_swell_height as nat);
            assert(w <= 13);
        }
        w + unit_str.unicode_len() + 3
    }

    /// The legend column, one cell per row, and its width. Only the first
    /// and the last row are labelled.
    fn legend_column(&self) -> (r: (Vec<Span>, usize))
        requires
            self.wf(),
        ensures
            r.1 == graph_legend_width(self.forecast@),
            r.0@.len() == SWELL_GRAPH_HEIGHT,
            forall|y: int|
                0 <= y < SWELL_GRAPH_HEIGHT ==> r.0@[y].model() == plain(
                    legend_text(graph_top(self.forecast@), graph_unit(self.forecast@), y),
                ),
    {
        let ghost top = graph_top(self.forecast@);
        let unit_str = self.unit.as_str();
        let legend_max_str = hundredths_text(self.max_swell_height);
        let legend_min_str = hundredths_text(self.min_swell_height);
        let a = legend_max_str.as_str().unicode_len();
        let b = legend_min_str.as_str().unicode_len();
        let w = if a >= b {
            a
        } else {
            b
        };
        let legend_max = self.legend_label(legend_max_str.as_str(), w, unit_str);
        let legend_min = self.legend_label(legend_min_str.as_str(), w, unit_str);
        let legend_width = self.legend_width();
        assert(legend_max@.len() == legend_min@.len());
        assert(legend_max@.len() == legend_width);
        let mut column: Vec<Span> = Vec::new();
        column.push(Span::text(legend_max));
        let mut y: usize = 1;
        while y < SWELL_GRAPH_HEIGHT - 1
            invariant
                1 <= y <= SWELL_GRAPH_HEIGHT - 1,
                column@.len() == y,
                legend_width == graph_legend_width(self.forecast@),
                top == graph_top(self.forecast@),
                forall|j: int|
                    0 <= j < y ==> column@[j].model() == plain(
                        legend_text(top, graph_unit(self.forecast@), j),
                    ),
            decreases SWELL_GRAPH_HEIGHT - y,
        {
            column.push(Span::text(blank(legend_width)));
            y = y + 1;
        }
        column.push(Span::text(legend_min));
        (column, legend_width)
    }

    /// One legend label: ` {num} {unit} `, the number right-aligned in `w`.
    fn legend_label(&self, num: &str, w: usize, unit: &str) -> (r: String)
        requires
            self.wf(),
            unit@ == length_symbol(self.unit),
            w == legend_number_width(graph_top(self.forecast@)),
        ensures
            r@ == legend_label(num@, graph_top(self.forecast@), self.unit),
    {
        proof {
            reveal_strlit(" ");
        }
        let mut r = String::from_str(" ");
        let aligned = align_right(num, w);
        r.append(aligned.as_str());
        r.append(" ");
        r.append(unit);
        r.append(" ");
        assert(r@ =~= legend_label(num@, graph_top(self.forecast@), self.unit));
        r
    }

    /// The row count that `height` reaches, rounded to the nearest row.
    fn scale(&self, height: u32) -> (r: u64)
        requires
            self.wf(),
        ensures
            r as nat == scaled_row(height as nat, self.max_swell_height as nat),
    {
        let top = self.max_swell_height;
        assert(top <= 0xffff_ffffu64 + 100) by {
            lemma_max_breaking_bound(self.forecast@);
        }
        (20 * height as u64 + top) / (2 * top)
    }

    /// The color of a record, from its ratings.
    fn color(fc: &Forecast) -> (r: Color)
        ensures
            r == rating_color(*fc),
    {
        if fc.solid_rating == 0 {
            Color::Red
        } else if fc.faded_rating == 0 {
            Color::Green
        } else {
            Color::Blue
        }
    }



}

/// The cells of one bin on row `y`.
fn bin_fill(row: usize, y: usize, bw: usize) -> (r: String)
    ensures
        r@ == bin_text(row as nat, y as nat, bw as nat),
{
    proof {
        reveal_strlit("─");
        reveal_strlit(".");
    }
    if row == y {
        repeat_glyph("─", bw)
    } else if row < y {
        repeat_glyph(".", bw)
    } else {
        blank(bw)
    }
}

/// The glyph between a left bin drawn on row `left` and a right bin drawn on
/// row `right`, on row `y`.
pub fn boundary_glyph_str(right: usize, left: usize, y: usize) -> (r: &'static str)
    ensures
        r@ == seq![glyph_between(right as int, left as int, y as int)],
{
    proof {
        reveal_strlit(" ");
        reveal_strlit(".");
        reveal_strlit("│");
        reveal_strlit("─");
        reveal_strlit("└");
        reveal_strlit("┌");
        reveal_strlit("┐");
        reveal_strlit("┘");
    }
    match (compare(right, left), compare(right, y), compare(left, y)) {
        (_, Ordering::Greater, Ordering::Greater) => " ",
        (_, Ordering::Less, Ordering::Less) => ".",
        (_, Ordering::Greater, Ordering::Less) | (_, Ordering::Less, Ordering::Greater) => "│",
        (Ordering::Equal, _, _) => "─",
        (Ordering::Greater, Ordering::Equal, _) => "└",
        (Ordering::Less, Ordering::Equal, _) => "┌",
        (Ordering::Greater, _, Ordering::Equal) => "┐",
        (Ordering::Less, _, Ordering::Equal) => "┘",
    }
}

/// How `a` compares with `b`.
fn compare(a: usize, b: usize) -> (r: Ordering)
    ensures
        r == ordering(a as int, b as int),
{
    if a < b {
        Ordering::Less
    } else if a == b {
        Ordering::Equal
    } else {
        Ordering::Greater
    }
}

pub proof fn lemma_max_breaking_bound(fs: Seq<Forecast>)
    ensures
        max_breaking(fs) <= 0xffff_ffff,
    decreases fs.len(),
{
    if fs.len() > 0 {
        lemma_max_breaking_bound(fs.drop_last());
    }
}

impl<'a> Border for Graph<'a> {
    open spec fn ready(&self) -> bool {
        self.wf()
    }

    open spec fn title_text(&self) -> Seq<char> {
        graph_title(self.forecast@)
    }

    open spec fn inner_lines(&self) -> Seq<Seq<SpanModel>> {
        graph_lines(self.forecast@)
    }

    /// The title: the first and the last day of the records.
    #[verifier::loop_isolation(false)]
    fn title(&self) -> (r: String) {
        let ghost fs = self.forecast@;
        let n = self.forecast.len();
        let mut first: LocalTime = self.forecast[0].local_timestamp;
        let mut last: LocalTime = self.forecast[0].local_timestamp;
        let mut i: usize = 1;
        while i < n
            invariant
                1 <= i <= n,
                first.seconds() == earliest(fs.take(i as int)),
                last.seconds() == latest(fs.take(i as int)),
            decreases n - i,
        {
            assert(fs.take(i + 1).drop_last() =~= fs.take(i as int));
            let t = self.forecast[i].local_timestamp;
            if t.timestamp() < first.timestamp() {
                first = t;
            }
            if t.timestamp() > last.timestamp() {
                last = t;
            }
            i = i + 1;
        }
        assert(fs.take(n as int) =~= fs);
        let mut title = first.date_label();
        title.append(" – ");
        let end = last.date_label();
        title.append(end.as_str());
        proof {
            reveal_strlit(" – ");
        }
        assert(title@ =~= graph_title(fs));
        title
    }

    /// The chart's interior: `SWELL_GRAPH_HEIGHT` lines, top row first.
    #[verifier::loop_isolation(false)]
    fn draw_inner(&self) -> (r: Vec<Line>) {
        let ghost fs = self.forecast@;
        let ghost top = graph_top(fs);
        let (mut legend, legend_width) = self.legend_column();
        let num_bins = self.forecast.len();
        let num_bin_boundaries = num_bins - 1;
        let bin_width = (INTERIOR_VIEWPORT_WIDTH - legend_width - num_bin_boundaries) / num_bins;
        proof {
            let q = bin_width as int;
            let n = num_bins as int;
            let room = (INTERIOR_VIEWPORT_WIDTH - legend_width - num_bin_boundaries) as int;
            assert(q * n <= room) by (nonlinear_arith)
                requires
                    q == room / n,
                    n > 0,
                    room >= 0,
            ;
            assert(n * q <= room);
        }
        let used_space = legend_width + num_bin_boundaries + num_bins * bin_width;
        let right_margin = INTERIOR_VIEWPORT_WIDTH - used_space;
        assert(bin_width == graph_bin_width(fs));
        assert(right_margin == graph_margin(fs));

        // The row and color of every record.
        let mut heights: Vec<usize> = Vec::new();
        let mut colors: Vec<Color> = Vec::new();
        let mut x: usize = 0;
        while x < num_bins
            invariant
                x <= num_bins,
                heights@.len() == x,
                colors@.len() == x,
                forall|i: int|
                    0 <= i < x ==> heights@[i] == record_row(fs[i], top) && colors@[i]
                        == rating_color(fs[i]),
            decreases num_bins - x,
        {
            let fc = &self.forecast[x];
            let scaled = self.scale(fc.swell.abs_max_breaking_height);
            let height = if scaled <= SWELL_GRAPH_HEIGHT as u64 {
                SWELL_GRAPH_HEIGHT - scaled as usize
            } else {
                0
            };
            heights.push(height);
            colors.push(Self::color(fc));
            x = x + 1;
        }

        let mut lines: Vec<Line> = Vec::new();
        let mut y: usize = 0;
        while y < SWELL_GRAPH_HEIGHT
            invariant
                y <= SWELL_GRAPH_HEIGHT,
                lines@.len() == y,
                legend@.len() == SWELL_GRAPH_HEIGHT - y,
                forall|j: int|
                    0 <= j < legend@.len() ==> legend@[j].model() == plain(
                        legend_text(top, graph_unit(fs), j + y),
                    ),
                forall|j: int| 0 <= j < y ==> models(#[trigger] lines@[j]@) == graph_line(fs, j as nat),
            decreases SWELL_GRAPH_HEIGHT - y,
        {
            // Fill in the bins
            let mut bins: Vec<Span> = Vec::new();
            let mut x: usize = 0;
            while x < num_bins
                invariant
                    x <= num_bins,
                    models(bins@) == graph_bins(fs, y as nat).take(x as int),
                decreases num_bins - x,
            {
                let ghost before = bins@;
                let cell = Span::colored(bin_fill(heights[x], y, bin_width), colors[x]);
                bins.push(cell);
                x = x + 1;
                proof {
                    lemma_models_push(before, cell);
                    assert(graph_bins(fs, y as nat).take(x as int) =~= graph_bins(
                        fs,
                        y as nat,
                    ).take(x - 1).push(cell.model()));
                }
            }
            assert(graph_bins(fs, y as nat).take(num_bins as int) =~= graph_bins(fs, y as nat));
            // Fill in the boundaries between them
            let mut boundaries: Vec<Span> = Vec::new();
            let mut x: usize = 1;
            while x < num_bins
                invariant
                    1 <= x <= num_bins,
                    models(boundaries@) == graph_bounds(fs, y as nat).take(x - 1),
                decreases num_bins - x,
            {
                let ghost before = boundaries@;
                let glyph = boundary_glyph_str(heights[x], heights[x - 1], y);
                let cell = Span::colored(String::from_str(glyph), colors[x]);
                boundaries.push(cell);
                x = x + 1;
                proof {
                    lemma_models_push(before, cell);
                    assert(graph_bounds(fs, y as nat).take(x - 1) =~= graph_bounds(
                        fs,
                        y as nat,
                    ).take(x - 2).push(cell.model()));
                }
            }
            assert(graph_bounds(fs, y as nat).take(num_bin_boundaries as int) =~= graph_bounds(
                fs,
                y as nat,
            ));
            let ghost bins_seq = bins@;
            let ghost bounds_seq = boundaries@;
            let mut cells = interleave_spans(bins, boundaries);
            proof {
                lemma_interleave_models(bins_seq, bounds_seq);
            }
            let ghost legend_before = legend@;
            let legend_cell = legend.remove(0);
            let mut line: Vec<Span> = Vec::new();
            line.push(legend_cell);
            let ghost l1 = line@;
            let ghost c = cells@;
            line.append(&mut cells);
            let ghost l2 = line@;
            let margin = Span::text(blank(right_margin));
            line.push(margin);
            proof {
                lemma_models_concat(l1, c);
                lemma_models_push(l2, margin);
                assert(models(l1) =~= seq![legend_before[0].model()]);
                assert(models(line@) =~= graph_line(fs, y as nat));
                assert(legend@ =~= legend_before.skip(1));
            }
            lines.push(line);
            y = y + 1;
        }
        reveal(graph_lines);
        assert(line_models(lines@) =~= graph_lines(fs));
        lines
    }
}

} // verus!
