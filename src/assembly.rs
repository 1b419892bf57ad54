//! The whole document: the chart over every record, then one table per day.
use vstd::prelude::*;
use vstd::view::View as _;
use crate::base::{lemma_models_concat, lemma_models_push, line_break, models, Span, SpanModel, View};
use crate::border::{bordered, Border, RenderError};
use crate::day::{day_fits, day_lines, day_title, Day};
use crate::forecast::{hour_of_day, Forecast};
use crate::graph::{graph_fits, graph_lines, graph_title, Graph};

verus! {

/// The hour after which a new day's table begins.
pub const EVENING_HOUR: u32 = 21;

/// Whether a record closes its day's table.
pub open spec fn is_evening(f: Forecast) -> bool {
    hour_of_day(f.local_timestamp.seconds()) == EVENING_HOUR
}

/// The records cut into days: each day ends with a record at `EVENING_HOUR`,
/// which it includes, or with the last record.
pub open spec fn days(fs: Seq<Forecast>) -> Seq<Seq<Forecast>>
    decreases fs.len(),
{
    if fs.len() == 0 {
        Seq::empty()
    } else {
        let prev = days(fs.drop_last());
        if prev.len() == 0 || is_evening(prev.last().last()) {
            prev.push(seq![fs.last()])
        } else {
            prev.update(prev.len() - 1, prev.last().push(fs.last()))
        }
    }
}

/// The spans of the day tables: each after a line break.
pub open spec fn day_sections(ds: Seq<Seq<Forecast>>) -> Seq<SpanModel>
    decreases ds.len(),
{
    if ds.len() == 0 {
        Seq::empty()
    } else {
        day_sections(ds.drop_last()) + seq![line_break()] + bordered(
            day_title(ds.last()),
            day_lines(ds.last()),
        )
    }
}

/// Whether every day's table fits.
pub open spec fn days_fit(ds: Seq<Seq<Forecast>>) -> bool {
    forall|j: int| 0 <= j < ds.len() ==> day_fits(#[trigger] ds[j].len())
}

/// The spans of the whole document.
pub open spec fn view_spans(fs: Seq<Forecast>) -> Seq<SpanModel> {
    bordered(graph_title(fs), graph_lines(fs)) + day_sections(days(fs))
}

/// Whether the whole document can be laid out.
pub open spec fn view_fits(fs: Seq<Forecast>) -> bool {
    fs.len() > 0 && graph_fits(fs) && days_fit(days(fs))
}

pub proof fn lemma_days_shape(fs: Seq<Forecast>)
    ensures
        fs.len() > 0 ==> days(fs).len() > 0 && days(fs).last().len() > 0 && days(fs).last().last()
            == fs.last(),
        forall|j: int| 0 <= j < days(fs).len() ==> (#[trigger] days(fs)[j]).len() > 0,
    decreases fs.len(),
{
    if fs.len() > 0 {
        let prev = days(fs.drop_last());
        lemma_days_shape(fs.drop_last());
        assert forall|j: int| 0 <= j < days(fs).len() implies (#[trigger] days(fs)[j]).len() > 0 by {
            if j < prev.len() && j != prev.len() - 1 {
                assert(days(fs)[j] == prev[j]);
            }
        }
    }
}

/// Adding record `i` to the days of the records before it.
proof fn lemma_days_step(fs: Seq<Forecast>, done: Seq<Seq<Forecast>>, start: int, i: int)
    requires
        0 <= start <= i < fs.len(),
        days(fs.take(i)) == done + if start < i {
            seq![fs.subrange(start, i)]
        } else {
            Seq::<Seq<Forecast>>::empty()
        },
        forall|j: int| start <= j < i ==> !is_evening(#[trigger] fs[j]),
        start == i && done.len() > 0 ==> is_evening(done.last().last()),
    ensures
        days(fs.take(i + 1)) == done + seq![fs.subrange(start, i + 1)],
{
    let t = fs.take(i + 1);
    assert(t.drop_last() =~= fs.take(i));
    assert(t.last() == fs[i]);
    if start < i {
        let g = fs.subrange(start, i);
        assert(g.last() == fs[i - 1]);
        assert(fs.subrange(start, i + 1) =~= g.push(fs[i]));
        assert(days(t) =~= done + seq![fs.subrange(start, i + 1)]);
    } else {
        assert(fs.subrange(start, i + 1) =~= seq![fs[i]]);
        assert(days(t) =~= done + seq![fs.subrange(start, i + 1)]);
    }
}

/// Days after a record at `EVENING_HOUR` are counted afresh.
pub proof fn lemma_days_split(a: Seq<Forecast>, b: Seq<Forecast>)
    requires
        a.len() > 0,
        is_evening(a.last()),
    ensures
        days(a + b) == days(a) + days(b),
    decreases b.len(),
{
    lemma_days_shape(a);
    if b.len() == 0 {
        assert(a + b =~= a);
        assert(days(a) + days(b) =~= days(a));
    } else {
        let b1 = b.drop_last();
        lemma_days_split(a, b1);
        assert((a + b).drop_last() =~= a + b1);
        assert((a + b).last() == b.last());
        lemma_days_shape(b1);
        if b1.len() == 0 {
            assert(days(b1) =~= Seq::<Seq<Forecast>>::empty());
            assert(days(a + b1) =~= days(a));
            assert(days(a + b) =~= days(a) + days(b));
        } else {
            let p = days(a) + days(b1);
            assert(p.last() == days(b1).last());
            assert(days(a + b) =~= days(a) + days(b));
        }
    }
}

impl View {
    /// The document of a run of forecast records: the chart of them all, then,
    /// each after a line break, the table of each day. Fails with `EmptyInput`
    /// when there are no records, and with `InvariantViolation` when the chart
    /// or a day's table cannot fit the viewport.
    #[verifier::loop_isolation(false)]
    pub fn draw(forecast: Vec<Forecast>) -> (r: Result<View, RenderError>)
        ensures
            r is Ok <==> view_fits(forecast@),
            match r {
                Ok(v) => models(v.spans@) == view_spans(forecast@),
                Err(e) => if forecast@.len() == 0 {
                    e == RenderError::EmptyInput
                } else {
                    e == RenderError::InvariantViolation
                },
            },
    {
        let ghost fs = forecast@;
        let graph = match Graph::new(forecast.as_slice()) {
            Ok(g) => g,
            Err(e) => {
                return Err(e);
            },
        };
        let mut spans = graph.draw();
        let ghost head = models(spans@);
        let n = forecast.len();
        let mut start: usize = 0;
        let mut i: usize = 0;
        let ghost mut done: Seq<Seq<Forecast>> = Seq::empty();
        while i < n
            invariant
                start <= i <= n,
                n == fs.len(),
                days(fs.take(i as int)) == done + if start < i {
                    seq![fs.subrange(start as int, i as int)]
                } else {
                    Seq::<Seq<Forecast>>::empty()
                },
                forall|j: int| start <= j < i ==> !is_evening(#[trigger] fs[j]),
                start == i && i < n && done.len() > 0 ==> is_evening(done.last().last()),
                start < i ==> i < n,
                days_fit(done),
                models(spans@) == head + day_sections(done),
            decreases n - i,
        {
            let evening = forecast[i].local_timestamp.hour() == EVENING_HOUR;
            proof {
                lemma_days_step(fs, done, start as int, i as int);
            }
            if evening || i + 1 == n {
                let ghost g = fs.subrange(start as int, i + 1);
                let part = vstd::slice::slice_subrange(forecast.as_slice(), start, i + 1);
                let ghost before = models(spans@);
                assert(done + seq![g] =~= done.push(g));
                if !push_day(&mut spans, part) {
                    proof {
                        lemma_day_in_days(fs, done, g, i as int);
                    }
                    return Err(RenderError::InvariantViolation);
                }
                proof {
                    let done2 = done.push(g);
                    assert(done2.drop_last() =~= done);
                    assert(done2.last() == g);
                    assert(g.last() == fs[i as int]);
                    assert(models(spans@) =~= head + day_sections(done2));
                    done = done2;
                }
                start = i + 1;
            }
            i = i + 1;
        }
        assert(fs.take(n as int) =~= fs);
        assert(done + Seq::<Seq<Forecast>>::empty() =~= done);
        assert(days(fs) =~= done);
        assert(models(spans@) =~= view_spans(fs));
        Ok(View { spans })
    }
}

/// Adds a line break and the table of `part` to `spans`, where the table fits;
/// says whether it did.
fn push_day(spans: &mut Vec<Span>, part: &[Forecast]) -> (r: bool)
    requires
        part@.len() > 0,
    ensures
        r == day_fits(part@.len()),
        r ==> models(final(spans)@) == models(old(spans)@) + seq![line_break()] + bordered(
            day_title(part@),
            day_lines(part@),
        ),
{
    let day = match Day::new(part) {
        Ok(d) => d,
        Err(_) => {
            return false;
        },
    };
    let ghost before = spans@;
    let nl = Span::newline();
    spans.push(nl);
    let ghost mid = spans@;
    let mut section = day.draw();
    let ghost sec = section@;
    spans.append(&mut section);
    proof {
        lemma_models_push(before, nl);
        lemma_models_concat(mid, sec);
        assert(models(spans@) =~= models(before) + seq![line_break()] + bordered(
            day_title(part@),
            day_lines(part@),
        ));
    }
    true
}

/// A day that does not fit stands among the days of the records.
proof fn lemma_day_in_days(fs: Seq<Forecast>, done: Seq<Seq<Forecast>>, g: Seq<Forecast>, i: int)
    requires
        0 <= i < fs.len(),
        days(fs.take(i + 1)) == done.push(g),
        g.len() > 0,
        g.last() == fs[i],
        is_evening(fs[i]) || i + 1 == fs.len(),
        !day_fits(g.len()),
    ensures
        !days_fit(days(fs)),
{
    let a = fs.take(i + 1);
    let b = fs.skip(i + 1);
    assert(a + b =~= fs);
    assert(days(a)[done.len() as int] == g);
    if i + 1 == fs.len() {
        assert(a =~= fs);
        assert(!day_fits(days(fs)[done.len() as int].len()));
    } else {
        assert(a.last() == fs[i]);
        lemma_days_split(a, b);
        assert(days(fs)[done.len() as int] == g);
        assert(!day_fits(days(fs)[done.len() as int].len()));
    }
}

} // verus!
