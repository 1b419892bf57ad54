//! The titled box that wraps every section of the document.
use vstd::prelude::*;
use vstd::string::*;
use crate::base::{lemma_models_concat, lemma_models_push, line_break, models, plain, Line, Span, SpanModel};
use crate::text::{center, centered, repeat_char, repeat_glyph};

verus! {

/// Total width of the document, in cells.
pub const VIEWPORT_WIDTH: usize = 90;

/// The document's width inside the two side walls.
pub const INTERIOR_VIEWPORT_WIDTH: usize = VIEWPORT_WIDTH - 2;

/// The longest title that the box holds: the title line frames it with two
/// tees and a blank on each side.
pub const TITLE_WIDTH_MAX: usize = INTERIOR_VIEWPORT_WIDTH - 4;

/// Why a section could not be laid out.
#[derive(Copy, Clone, Debug, PartialEq, Eq, Structural)]
pub enum RenderError {
    /// A section was asked to show no forecast records.
    EmptyInput,
    /// The content cannot be laid out within the viewport.
    InvariantViolation,
}

/// The title with one blank on each side.
pub open spec fn padded_title(t: Seq<char>) -> Seq<char> {
    seq![' '] + t + seq![' ']
}

/// The first header line: the top of a small box as wide as the padded title,
/// centered in the whole viewport.
pub open spec fn border_top_text(t: Seq<char>) -> Seq<char> {
    centered(
        seq!['┌'] + repeat_char('─', t.len() + 2) + seq!['┐'],
        VIEWPORT_WIDTH as nat,
        ' ',
    )
}

/// The second header line: the padded title between tees, centered on the
/// top wall of the document.
pub open spec fn border_title_text(t: Seq<char>) -> Seq<char> {
    seq!['┌'] + centered(
        seq!['┤'] + padded_title(t) + seq!['├'],
        INTERIOR_VIEWPORT_WIDTH as nat,
        '─',
    ) + seq!['┐']
}

/// The third header line: the bottom of the small box, between the side walls.
pub open spec fn border_header_bottom_text(t: Seq<char>) -> Seq<char> {
    seq!['│'] + centered(
        seq!['└'] + repeat_char('─', t.len() + 2) + seq!['┘'],
        INTERIOR_VIEWPORT_WIDTH as nat,
        ' ',
    ) + seq!['│']
}

/// The closing line of the document's box.
pub open spec fn border_bottom_text() -> Seq<char> {
    seq!['└'] + repeat_char('─', INTERIOR_VIEWPORT_WIDTH as nat) + seq!['┘']
}

/// What stands between two interior lines: a wall, a break, a wall.
pub open spec fn wall_break() -> Seq<SpanModel> {
    seq![plain(seq!['│']), line_break(), plain(seq!['│'])]
}

/// The interior lines, one after another, joined by `wall_break`.
pub open spec fn walled(lines: Seq<Seq<SpanModel>>) -> Seq<SpanModel>
    decreases lines.len(),
{
    if lines.len() == 0 {
        Seq::empty()
    } else if lines.len() == 1 {
        lines[0]
    } else {
        walled(lines.drop_last()) + wall_break() + lines.last()
    }
}

/// The models of a sequence of lines.
pub open spec fn line_models(lines: Seq<Vec<Span>>) -> Seq<Seq<SpanModel>> {
    lines.map_values(|l: Vec<Span>| models(l@))
}

/// The spans of a section titled `t` whose interior is `lines`.
#[verifier::opaque]
pub open spec fn bordered(t: Seq<char>, lines: Seq<Seq<SpanModel>>) -> Seq<SpanModel> {
    seq![
        plain(border_top_text(t)),
        line_break(),
        plain(border_title_text(t)),
        line_break(),
        plain(border_header_bottom_text(t)),
        line_break(),
        plain(seq!['│']),
    ] + walled(lines) + seq![plain(seq!['│']), line_break(), plain(border_bottom_text())]
}

/// A string built of a one-cell glyph, `n` of them, and a closing glyph.
fn framed(open: &str, n: usize, close: &str) -> (r: String)
    requires
        open@.len() == 1,
        close@.len() == 1,
    ensures
        r@ == seq![open@[0]] + repeat_char('─', n as nat) + seq![close@[0]],
{
    proof {
        reveal_strlit("─");
    }
    let mut r = String::from_str(open);
    let run = repeat_glyph("─", n);
    r.append(run.as_str());
    r.append(close);
    assert(r@ =~= seq![open@[0]] + repeat_char('─', n as nat) + seq![close@[0]]);
    r
}

/// The three header lines of a box titled `title`, with breaks between them.
fn border_top(title: &str) -> (r: Vec<Span>)
    requires
        title@.len() <= TITLE_WIDTH_MAX,
    ensures
        models(r@) == seq![
            plain(border_top_text(title@)),
            line_break(),
            plain(border_title_text(title@)),
            line_break(),
            plain(border_header_bottom_text(title@)),
        ],
{
    proof {
        reveal_strlit("┌");
        reveal_strlit("┐");
        reveal_strlit("└");
        reveal_strlit("┘");
        reveal_strlit("┤");
        reveal_strlit("├");
        reveal_strlit("│");
        reveal_strlit("─");
        reveal_strlit(" ");
    }
    let len = title.unicode_len();
    let box_top = framed("┌", len + 2, "┐");
    let top = center(box_top.as_str(), VIEWPORT_WIDTH, " ");

    let mut box_mid = String::from_str("┤ ");
    box_mid.append(title);
    box_mid.append(" ├");
    proof {
        reveal_strlit("┤ ");
        reveal_strlit(" ├");
    }
    assert(box_mid@ =~= seq!['┤'] + padded_title(title@) + seq!['├']);
    let centered_mid = center(box_mid.as_str(), INTERIOR_VIEWPORT_WIDTH, "─");
    let mut mid = String::from_str("┌");
    mid.append(centered_mid.as_str());
    mid.append("┐");
    assert(mid@ =~= border_title_text(title@));

    let box_btm = framed("└", len + 2, "┘");
    let centered_btm = center(box_btm.as_str(), INTERIOR_VIEWPORT_WIDTH, " ");
    let mut btm = String::from_str("│");
    btm.append(centered_btm.as_str());
    btm.append("│");
    assert(btm@ =~= border_header_bottom_text(title@));

    let mut spans: Vec<Span> = Vec::new();
    spans.push(Span::text(top));
    spans.push(Span::newline());
    spans.push(Span::text(mid));
    spans.push(Span::newline());
    spans.push(Span::text(btm));
    assert(models(spans@) =~= seq![
        plain(border_top_text(title@)),
        line_break(),
        plain(border_title_text(title@)),
        line_break(),
        plain(border_header_bottom_text(title@)),
    ]);
    spans
}

/// The closing line of the box.
fn border_bottom() -> (r: Span)
    ensures
        r.model() == plain(border_bottom_text()),
{
    proof {
        reveal_strlit("└");
        reveal_strlit("┘");
    }
    Span::text(framed("└", INTERIOR_VIEWPORT_WIDTH, "┘"))
}

/// Wraps `inner` in a box titled `title`: three header lines that frame the
/// title, each interior line between two walls, and a closing line. A title
/// wider than `TITLE_WIDTH_MAX` cells does not fit and is refused.
pub fn border(title: &str, inner: Vec<Line>) -> (r: Result<Vec<Span>, RenderError>)
    ensures
        match r {
            Ok(spans) => title@.len() <= TITLE_WIDTH_MAX && models(spans@) == bordered(
                title@,
                line_models(inner@),
            ),
            Err(e) => title@.len() > TITLE_WIDTH_MAX && e == RenderError::InvariantViolation,
        },
{
    proof {
        reveal_strlit("│");
    }
    let len = title.unicode_len();
    if len > TITLE_WIDTH_MAX {
        return Err(RenderError::InvariantViolation);
    }
    let ghost lines = line_models(inner@);
    assert("│"@ =~= seq!['│']);
    let mut spans = border_top(title);
    let ghost s0 = spans@;
    let nl = Span::newline();
    spans.push(nl);
    let ghost s1 = spans@;
    let wall = Span::new("│");
    spans.push(wall);
    proof {
        lemma_models_push(s0, nl);
        lemma_models_push(s1, wall);
    }
    let ghost head = models(spans@);
    assert(head =~= seq![
        plain(border_top_text(title@)),
        line_break(),
        plain(border_title_text(title@)),
        line_break(),
        plain(border_header_bottom_text(title@)),
        line_break(),
        plain(seq!['│']),
    ]);
    let mut rest = inner;
    let n = rest.len();
    let mut k: usize = 0;
    while rest.len() > 0
        invariant
            k + rest@.len() == n,
            n == lines.len(),
            line_models(rest@) == lines.skip(k as int),
            models(spans@) == head + walled(lines.take(k as int)),
        decreases rest@.len(),
    {
        let ghost before = models(spans@);
        let ghost old_rest = rest@;
        let mut line = rest.remove(0);
        assert(models(line@) == lines[k as int]) by {
            assert(line_models(old_rest)[0] == lines.skip(k as int)[0]);
        }
        if k > 0 {
            let ghost t0 = spans@;
            let w1 = Span::new("│");
            spans.push(w1);
            let ghost t1 = spans@;
            let b = Span::newline();
            spans.push(b);
            let ghost t2 = spans@;
            let w2 = Span::new("│");
            spans.push(w2);
            proof {
                lemma_models_push(t0, w1);
                lemma_models_push(t1, b);
                lemma_models_push(t2, w2);
                reveal_strlit("│");
                assert("│"@ =~= seq!['│']);
                assert(models(spans@) =~= before + wall_break());
            }
        }
        let ghost mid = models(spans@);
        let ghost mid_spans = spans@;
        let ghost line_spans = line@;
        spans.append(&mut line);
        proof {
            lemma_models_concat(mid_spans, line_spans);
        }
        k = k + 1;
        proof {
            assert(models(spans@) =~= mid + lines[k - 1]);
            assert(lines.take(k as int).drop_last() =~= lines.take(k - 1));
            assert(lines.take(k as int).last() == lines[k - 1]);
            if k == 1 {
                assert(before =~= head);
                assert(walled(lines.take(1)) == lines[0]);
                assert(mid =~= head);
            } else {
                assert(mid =~= before + wall_break());
            }
            assert(models(spans@) =~= head + walled(lines.take(k as int)));
            assert(rest@ =~= old_rest.skip(1));
            assert(line_models(old_rest.skip(1)) =~= line_models(old_rest).skip(1));
            assert(lines.skip(k - 1).skip(1) =~= lines.skip(k as int));
            assert(line_models(rest@) =~= lines.skip(k as int));
        }
    }
    let ghost e0 = spans@;
    let w = Span::new("│");
    spans.push(w);
    let ghost e1 = spans@;
    let b = Span::newline();
    spans.push(b);
    let ghost e2 = spans@;
    let bottom = border_bottom();
    spans.push(bottom);
    proof {
        lemma_models_push(e0, w);
        lemma_models_push(e1, b);
        lemma_models_push(e2, bottom);
    }
    assert(lines.take(n as int) =~= lines);
    reveal(bordered);
    assert(models(spans@) =~= bordered(title@, lines));
    Ok(spans)
}

/// A section of the document: a title and interior lines, drawn in a box.
pub trait Border {
    /// Whether the section can be drawn.
    spec fn ready(&self) -> bool;

    /// The section's title.
    spec fn title_text(&self) -> Seq<char>;

    /// The section's interior lines.
    spec fn inner_lines(&self) -> Seq<Seq<SpanModel>>;

    /// The title, unpadded.
    fn title(&self) -> (r: String)
        requires
            self.ready(),
        ensures
            r@ == self.title_text(),
            r@.len() <= TITLE_WIDTH_MAX,
    ;

    /// The content within the box.
    fn draw_inner(&self) -> (r: Vec<Line>)
        requires
            self.ready(),
        ensures
            line_models(r@) == self.inner_lines(),
    ;

    /// The content within a box that bears the title.
    fn draw(&self) -> (r: Vec<Span>)
        requires
            self.ready(),
        ensures
            models(r@) == bordered(self.title_text(), self.inner_lines()),
    {
        let title = self.title();
        let inner = self.draw_inner();
        match border(title.as_str(), inner) {
            Ok(spans) => spans,
            Err(_) => Vec::new(),
        }
    }
}

} // verus!
