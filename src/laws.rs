//! Properties that hold of the layout as a whole.
use vstd::prelude::*;
use crate::assembly::view_spans;
use crate::base::{cells, is_line, lemma_line_text_concat, lemma_line_text_one, plain, width, SpanModel};
use crate::day::{
    air_text, air_texts, day_bin_width, day_cells, day_fits, day_lines, day_margin, day_row,
    skip_line, swell_direction_text, swell_direction_texts, swell_height_text, swell_height_texts,
    swell_period_text, swell_period_texts, swell_rows, train_rows, time_rows, time_text, time_texts,
    train_name, train_present, weather_rows, wind_direction_text, wind_direction_texts, wind_rows,
    wind_speed_text, wind_speed_texts, Train, LEGEND_WIDTH,
};
use crate::graph::{
    graph_bin_width, graph_bins, graph_bounds, graph_fits, graph_legend_width,
    graph_line, graph_lines, graph_margin, graph_top, graph_unit, interleave, legend_number_width,
    legend_text, SWELL_GRAPH_HEIGHT,
};
use crate::text::{centered, hundredths_display, lemma_aligned_len, lemma_centered_len, spaces};
use crate::border::{
    INTERIOR_VIEWPORT_WIDTH, border_bottom_text, border_header_bottom_text, border_title_text, border_top_text,
    TITLE_WIDTH_MAX, VIEWPORT_WIDTH,
};
use crate::browser::browser_page;
use crate::forecast::Forecast;
use crate::graph::{glyph_between, max_breaking, mirrored, scaled_row};
use crate::forecast::UnitLength;
use crate::terminal::terminal_text;

verus! {

/// Each line of a box's frame is exactly `VIEWPORT_WIDTH` cells wide, for any
/// title that fits.
pub proof fn lemma_border_lines_span_viewport(title: Seq<char>)
    requires
        title.len() <= TITLE_WIDTH_MAX,
    ensures
        border_top_text(title).len() == VIEWPORT_WIDTH,
        border_title_text(title).len() == VIEWPORT_WIDTH,
        border_header_bottom_text(title).len() == VIEWPORT_WIDTH,
        border_bottom_text().len() == VIEWPORT_WIDTH,
{
}

/// Scaling to rows is monotonic: a greater height never reaches fewer rows.
pub proof fn lemma_scale_monotonic(h1: nat, h2: nat, top: nat)
    requires
        top > 0,
        h1 < h2,
    ensures
        scaled_row(h1, top) <= scaled_row(h2, top),
{
    let a = 20 * h1 + top;
    let b = 20 * h2 + top;
    let d = 2 * top;
    assert(a / d <= b / d) by (nonlinear_arith)
        requires
            a <= b,
            d > 0,
    ;
}

/// Swapping two adjacent bins mirrors the glyph between them: a rising step
/// becomes a falling one, and each corner turns into its mirror image.
pub proof fn lemma_boundary_glyph_mirror(right: int, left: int, y: int)
    ensures
        glyph_between(left, right, y) == mirrored(glyph_between(right, left, y)),
{
}

/// Rendering depends on the records alone: the same records give the same
/// document, byte for byte, on a terminal and in a browser.
pub proof fn lemma_render_deterministic(a: Seq<Forecast>, b: Seq<Forecast>)
    requires
        a == b,
    ensures
        view_spans(a) == view_spans(b),
        terminal_text(view_spans(a)) == terminal_text(view_spans(b)),
        browser_page(view_spans(a)) == browser_page(view_spans(b)),
{
}

/// The width of two runs of spans side by side.
pub proof fn lemma_width_concat(a: Seq<SpanModel>, b: Seq<SpanModel>)
    ensures
        width(a + b) == width(a) + width(b),
        is_line(a) && is_line(b) ==> is_line(a + b),
{
    lemma_line_text_concat(a, b);
    if is_line(a) && is_line(b) {
        assert forall|i: int| 0 <= i < (a + b).len() implies (a + b)[i].content is Text by {
            if i >= a.len() {
                assert((a + b)[i] == b[i - a.len()]);
            }
        }
    }
}

/// A run of spans of `k` cells each.
pub proof fn lemma_width_uniform(s: Seq<SpanModel>, k: nat)
    requires
        forall|i: int| 0 <= i < s.len() ==> (#[trigger] cells(s[i])).len() == k,
    ensures
        width(s) == s.len() * k,
    decreases s.len(),
{
    if s.len() > 0 {
        let init = s.drop_last();
        assert forall|i: int| 0 <= i < init.len() implies (#[trigger] cells(init[i])).len() == k by {
            assert(init[i] == s[i]);
        }
        lemma_width_uniform(init, k);
        assert(init + seq![s.last()] =~= s);
        lemma_width_concat(init, seq![s.last()]);
        lemma_line_text_one(s.last());
        assert(init.len() * k + k == s.len() * k) by (nonlinear_arith)
            requires
                init.len() + 1 == s.len(),
        ;
    }
}

/// Interleaving keeps every span, so it keeps the total width.
pub proof fn lemma_interleave_width(a: Seq<SpanModel>, b: Seq<SpanModel>)
    ensures
        width(interleave(a, b)) == width(a) + width(b),
        is_line(a) && is_line(b) ==> is_line(interleave(a, b)),
    decreases a.len() + b.len(),
{
    if a.len() > 0 {
        let rest = a.drop_first();
        lemma_interleave_width(b, rest);
        assert(seq![a[0]] + rest =~= a);
        lemma_width_concat(seq![a[0]], rest);
        lemma_width_concat(seq![a[0]], interleave(b, rest));
        if is_line(a) {
            assert(is_line(rest)) by {
                assert forall|i: int| 0 <= i < rest.len() implies rest[i].content is Text by {
                    assert(rest[i] == a[i + 1]);
                }
            }
            assert(is_line(seq![a[0]]));
        }
    }
}

/// The legend cell of every row is as wide as the legend column.
proof fn lemma_legend_text_len(top: nat, unit: UnitLength, y: int)
    ensures
        legend_text(top, unit, y).len() == crate::graph::legend_width(top, unit),
{
    let w = legend_number_width(top);
    lemma_aligned_len(hundredths_display(top), w);
    lemma_aligned_len(hundredths_display(0), w);
}

/// One chart row spans the interior.
proof fn lemma_graph_line_width(fs: Seq<Forecast>, y: nat)
    requires
        fs.len() > 0,
        graph_fits(fs),
    ensures
        width(graph_line(fs, y)) == INTERIOR_VIEWPORT_WIDTH,
        is_line(graph_line(fs, y)),
{
    let n = fs.len();
    let bw = graph_bin_width(fs);
    let lw = graph_legend_width(fs);
    let bins = graph_bins(fs, y);
    let bounds = graph_bounds(fs, y);
    let legend = seq![plain(legend_text(graph_top(fs), graph_unit(fs), y as int))];
    let margin = seq![plain(spaces(graph_margin(fs)))];
    lemma_legend_text_len(graph_top(fs), graph_unit(fs), y as int);
    lemma_line_text_one(legend[0]);
    lemma_line_text_one(margin[0]);
    assert forall|i: int| 0 <= i < bins.len() implies (#[trigger] cells(bins[i])).len() == bw by {}
    lemma_width_uniform(bins, bw);
    assert forall|i: int| 0 <= i < bounds.len() implies (#[trigger] cells(bounds[i])).len() == 1 by {}
    lemma_width_uniform(bounds, 1);
    lemma_interleave_width(bins, bounds);
    let mid = interleave(bins, bounds);
    lemma_width_concat(legend, mid);
    lemma_width_concat(legend + mid, margin);
    let room = INTERIOR_VIEWPORT_WIDTH - lw - (n - 1);
    assert(n * bw <= room) by (nonlinear_arith)
        requires
            bw == room / (n as int),
            n > 0,
            room >= 0,
    ;
    assert(is_line(legend));
    assert(is_line(margin));
    assert(is_line(bins));
    assert(is_line(bounds));
}

/// Every interior line of a chart spans exactly the interior width, and holds
/// no line break.
pub proof fn lemma_graph_lines_fill_interior(fs: Seq<Forecast>)
    requires
        fs.len() > 0,
        graph_fits(fs),
    ensures
        graph_lines(fs).len() == SWELL_GRAPH_HEIGHT,
        forall|y: int|
            0 <= y < graph_lines(fs).len() ==> width(#[trigger] graph_lines(fs)[y])
                == INTERIOR_VIEWPORT_WIDTH && is_line(graph_lines(fs)[y]),
{
    reveal(graph_lines);
    assert forall|y: int| 0 <= y < graph_lines(fs).len() implies width(
        #[trigger] graph_lines(fs)[y],
    ) == INTERIOR_VIEWPORT_WIDTH && is_line(graph_lines(fs)[y]) by {
        lemma_graph_line_width(fs, y as nat);
    }
}

/// Whether every cell text of a day's records fits its column.
pub open spec fn day_texts_fit(fs: Seq<Forecast>) -> bool {
    let bw = day_bin_width(fs.len());
    forall|i: int|
        #![trigger fs[i]]
        0 <= i < fs.len() ==> {
            &&& time_text(fs[i]).len() <= bw
            &&& wind_speed_text(fs[i]).len() <= bw
            &&& wind_direction_text(fs[i]).len() <= bw
            &&& air_text(fs[i]).len() <= bw
            &&& forall|t: Train|
                #![trigger swell_height_text(fs[i], t)]
                swell_height_text(fs[i], t).len() <= bw && swell_period_text(fs[i], t).len() <= bw
                    && swell_direction_text(fs[i], t).len() <= bw
        }
}

/// The gaps and cells of a row whose texts fit.
proof fn lemma_day_cells_width(texts: Seq<Seq<char>>, bw: nat)
    requires
        forall|i: int| 0 <= i < texts.len() ==> (#[trigger] texts[i]).len() <= bw,
    ensures
        width(day_cells(texts, bw)) == texts.len() * (1 + bw),
        is_line(day_cells(texts, bw)),
    decreases texts.len(),
{
    if texts.len() == 0 {
        assert(day_cells(texts, bw) =~= Seq::<SpanModel>::empty());
        assert(crate::base::line_text(Seq::<SpanModel>::empty()) =~= Seq::<char>::empty());
    } else {
        let init = texts.drop_last();
        assert forall|i: int| 0 <= i < init.len() implies (#[trigger] init[i]).len() <= bw by {
            assert(init[i] == texts[i]);
        }
        lemma_day_cells_width(init, bw);
        let pair = seq![plain(seq![' ']), plain(centered(texts.last(), bw, ' '))];
        assert(day_cells(init, bw) + pair =~= day_cells(texts, bw));
        lemma_width_concat(day_cells(init, bw), pair);
        lemma_centered_len(texts.last(), bw, ' ');
        assert(seq![pair[0]] + seq![pair[1]] =~= pair);
        lemma_width_concat(seq![pair[0]], seq![pair[1]]);
        lemma_line_text_one(pair[0]);
        lemma_line_text_one(pair[1]);
        assert(init.len() * (1 + bw) + 1 + bw == texts.len() * (1 + bw)) by (nonlinear_arith)
            requires
                init.len() + 1 == texts.len(),
        ;
    }
}

/// A row of a day's table whose legend and texts fit spans the interior.
proof fn lemma_day_row_width(legend: Seq<char>, texts: Seq<Seq<char>>)
    requires
        legend.len() <= LEGEND_WIDTH,
        day_fits(texts.len()),
        forall|i: int| 0 <= i < texts.len() ==> (#[trigger] texts[i]).len() <= day_bin_width(
            texts.len(),
        ),
    ensures
        width(day_row(legend, texts)) == INTERIOR_VIEWPORT_WIDTH,
        is_line(day_row(legend, texts)),
{
    let n = texts.len();
    let bw = day_bin_width(n);
    lemma_day_cells_width(texts, bw);
    let head = seq![plain(centered(legend, LEGEND_WIDTH as nat, ' '))];
    let tail = seq![plain(spaces(day_margin(n)))];
    lemma_centered_len(legend, LEGEND_WIDTH as nat, ' ');
    lemma_line_text_one(head[0]);
    lemma_line_text_one(tail[0]);
    lemma_width_concat(head, day_cells(texts, bw));
    lemma_width_concat(head + day_cells(texts, bw), tail);
    let room = INTERIOR_VIEWPORT_WIDTH - n - LEGEND_WIDTH;
    assert(n * bw <= room) by (nonlinear_arith)
        requires
            bw == room / (n as int),
            n > 0,
            room >= 0,
    ;
    assert(n * (1 + bw) == n + n * bw) by (nonlinear_arith);
    assert(is_line(head));
    assert(is_line(tail));
}

/// Whether every line spans the interior and holds no break.
pub open spec fn all_full(ls: Seq<Seq<SpanModel>>) -> bool {
    forall|j: int|
        0 <= j < ls.len() ==> width(#[trigger] ls[j]) == INTERIOR_VIEWPORT_WIDTH && is_line(ls[j])
}

proof fn lemma_all_full_concat(a: Seq<Seq<SpanModel>>, b: Seq<Seq<SpanModel>>)
    requires
        all_full(a),
        all_full(b),
    ensures
        all_full(a + b),
{
    assert forall|j: int| 0 <= j < (a + b).len() implies width(#[trigger] (a + b)[j])
        == INTERIOR_VIEWPORT_WIDTH && is_line((a + b)[j]) by {
        if j >= a.len() {
            assert((a + b)[j] == b[j - a.len()]);
        }
    }
}

proof fn lemma_skip_line_full()
    ensures
        all_full(seq![skip_line()]),
{
    lemma_line_text_one(plain(spaces(INTERIOR_VIEWPORT_WIDTH as nat)));
    assert(is_line(skip_line()));
}

/// The three rows of a swell train span the interior, whether or not any
/// record has the train, where each cell's text fits its column.
pub proof fn lemma_train_rows_fill_interior(fs: Seq<Forecast>, train: Train)
    requires
        day_fits(fs.len()),
        day_texts_fit(fs),
    ensures
        all_full(train_rows(fs, train)),
        all_full(swell_rows(fs, train)),
{
    let bw = day_bin_width(fs.len());
    assert forall|i: int| 0 <= i < fs.len() implies (#[trigger] swell_height_texts(fs, train)[i]).len() <= bw by {
        assert(swell_height_text(fs[i], train).len() <= bw);
    }
    assert forall|i: int| 0 <= i < fs.len() implies (#[trigger] swell_period_texts(fs, train)[i]).len() <= bw by {
        assert(swell_height_text(fs[i], train).len() <= bw);
    }
    assert forall|i: int| 0 <= i < fs.len() implies (#[trigger] swell_direction_texts(fs, train)[i]).len() <= bw by {
        assert(swell_height_text(fs[i], train).len() <= bw);
    }
    lemma_day_row_width(Seq::empty(), swell_height_texts(fs, train));
    lemma_day_row_width(train_name(train), swell_period_texts(fs, train));
    lemma_day_row_width(seq!['S', 'w', 'e', 'l', 'l'], swell_direction_texts(fs, train));
    assert(all_full(train_rows(fs, train)));
    assert(all_full(Seq::<Seq<SpanModel>>::empty()));
}

/// Every interior line of a day's table spans exactly the interior width, and
/// holds no line break, where each cell's text fits its column.
pub proof fn lemma_day_lines_fill_interior(fs: Seq<Forecast>)
    requires
        day_fits(fs.len()),
        day_texts_fit(fs),
    ensures
        all_full(day_lines(fs)),
{
    reveal(day_lines);
    let bw = day_bin_width(fs.len());
    assert forall|i: int| 0 <= i < fs.len() implies (#[trigger] time_texts(fs)[i]).len() <= bw
        && wind_speed_texts(fs)[i].len() <= bw && wind_direction_texts(fs)[i].len() <= bw
        && air_texts(fs)[i].len() <= bw by {
        assert(time_text(fs[i]).len() <= bw);
    }
    lemma_day_row_width(seq!['T', 'i', 'm', 'e'], time_texts(fs));
    lemma_day_row_width(seq![' '], wind_speed_texts(fs));
    lemma_day_row_width(seq![' ', 'W', 'i', 'n', 'd'], wind_direction_texts(fs));
    lemma_day_row_width(seq!['A', 'i', 'r'], air_texts(fs));
    lemma_skip_line_full();
    lemma_train_rows_fill_interior(fs, Train::Primary);
    lemma_train_rows_fill_interior(fs, Train::Secondary);
    let skip = seq![skip_line()];
    let secondary = if train_present(fs, Train::Secondary) {
        swell_rows(fs, Train::Secondary) + skip
    } else {
        Seq::empty()
    };
    if train_present(fs, Train::Secondary) {
        lemma_all_full_concat(swell_rows(fs, Train::Secondary), skip);
    }
    assert(all_full(time_rows(fs)));
    assert(all_full(wind_rows(fs)));
    assert(all_full(weather_rows(fs)));
    let a = time_rows(fs) + skip;
    lemma_all_full_concat(time_rows(fs), skip);
    let b = a + swell_rows(fs, Train::Primary);
    lemma_all_full_concat(a, swell_rows(fs, Train::Primary));
    let c = b + skip;
    lemma_all_full_concat(b, skip);
    let d = c + secondary;
    lemma_all_full_concat(c, secondary);
    let e = d + wind_rows(fs);
    lemma_all_full_concat(d, wind_rows(fs));
    let f = e + skip;
    lemma_all_full_concat(e, skip);
    lemma_all_full_concat(f, weather_rows(fs));
}

/// A day whose records have neither a primary nor a secondary swell shows
/// only its time, wind and air rows, with blank lines between the groups.
pub proof fn lemma_day_without_swell(fs: Seq<Forecast>)
    requires
        !train_present(fs, Train::Primary),
        !train_present(fs, Train::Secondary),
    ensures
        day_lines(fs) == time_rows(fs) + seq![skip_line(), skip_line()] + wind_rows(fs) + seq![
            skip_line(),
        ] + weather_rows(fs),
{
    reveal(day_lines);
    assert(swell_rows(fs, Train::Primary) =~= Seq::<Seq<SpanModel>>::empty());
    assert(day_lines(fs) =~= time_rows(fs) + seq![skip_line(), skip_line()] + wind_rows(fs)
        + seq![skip_line()] + weather_rows(fs));
}

/// The tallest forecast bounds every record's and is one of them.
pub proof fn lemma_max_breaking_is_max(fs: Seq<Forecast>)
    ensures
        forall|i: int|
            0 <= i < fs.len() ==> (#[trigger] fs[i]).swell.max_breaking_height <= max_breaking(fs),
        fs.len() > 0 ==> exists|i: int|
            0 <= i < fs.len() && (#[trigger] fs[i]).swell.max_breaking_height == max_breaking(fs),
    decreases fs.len(),
{
    if fs.len() > 0 {
        let init = fs.drop_last();
        lemma_max_breaking_is_max(init);
        assert forall|i: int| 0 <= i < fs.len() implies (#[trigger] fs[i]).swell.max_breaking_height
            <= max_breaking(fs) by {
            if i < init.len() {
                assert(fs[i] == init[i]);
            }
        }
        if fs.last().swell.max_breaking_height as nat >= max_breaking(init) {
            assert(fs[fs.len() - 1].swell.max_breaking_height == max_breaking(fs));
        } else {
            let j = choose|j: int|
                0 <= j < init.len() && (#[trigger] init[j]).swell.max_breaking_height
                    == max_breaking(init);
            assert(fs[j] == init[j]);
        }
    }
}

/// The records with those at `x - 1` and `x` swapped.
pub open spec fn swapped(fs: Seq<Forecast>, x: int) -> Seq<Forecast> {
    fs.update(x - 1, fs[x]).update(x, fs[x - 1])
}

/// Swapping two adjacent records of a chart keeps the chart's range, and on
/// every row mirrors the glyph between their bins: a rising step becomes a
/// falling one and each corner turns into its mirror image. The two records
/// share a unit, so the chart's unit stays too.
pub proof fn lemma_swapped_bins_mirror(fs: Seq<Forecast>, x: int, y: nat)
    requires
        1 <= x < fs.len(),
        fs[x - 1].swell.unit == fs[x].swell.unit,
    ensures
        graph_top(swapped(fs, x)) == graph_top(fs),
        cells(graph_bounds(swapped(fs, x), y)[x - 1]) == seq![
            mirrored(cells(graph_bounds(fs, y)[x - 1])[0]),
        ],
{
    let gs = swapped(fs, x);
    lemma_max_breaking_is_max(fs);
    lemma_max_breaking_is_max(gs);
    assert(gs.len() == fs.len());
    assert forall|i: int| 0 <= i < fs.len() implies (#[trigger] fs[i]).swell.max_breaking_height
        <= max_breaking(gs) by {
        if i == x - 1 {
            assert(gs[x] == fs[i]);
        } else if i == x {
            assert(gs[x - 1] == fs[i]);
        } else {
            assert(gs[i] == fs[i]);
        }
    }
    assert forall|i: int| 0 <= i < gs.len() implies (#[trigger] gs[i]).swell.max_breaking_height
        <= max_breaking(fs) by {
        if i == x - 1 {
            assert(fs[x] == gs[i]);
        } else if i == x {
            assert(fs[x - 1] == gs[i]);
        } else {
            assert(fs[i] == gs[i]);
        }
    }
    assert(graph_unit(gs) == graph_unit(fs));
    assert(graph_top(gs) == graph_top(fs));
    let top = graph_top(fs);
    lemma_boundary_glyph_mirror(
        crate::graph::record_row(fs[x], top) as int,
        crate::graph::record_row(fs[x - 1], top) as int,
        y as int,
    );
}

} // verus!
