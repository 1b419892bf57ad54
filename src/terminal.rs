//! Rendering for terminals: text with ANSI color escapes.
use vstd::prelude::*;
use vstd::string::*;
use vstd::view::View as _;
use crate::base::{cells, models, Color, Content, SpanModel, View};
use crate::render::Render;

verus! {

/// The escape that selects a foreground color.
pub open spec fn ansi_color(c: Color) -> Seq<char> {
    match c {
        Color::Red => seq!['\u{1b}', '[', '0', ';', '3', '1', 'm'],
        Color::Green => seq!['\u{1b}', '[', '0', ';', '3', '2', 'm'],
        Color::Blue => seq!['\u{1b}', '[', '0', ';', '3', '4', 'm'],
    }
}

/// The escape that ends a color.
pub open spec fn ansi_reset() -> Seq<char> {
    seq!['\u{1b}', '[', '0', 'm']
}

/// One span on a terminal: its color's escape, its text, a reset.
pub open spec fn terminal_span(s: SpanModel) -> Seq<char> {
    match s.style.fg {
        Some(c) => ansi_color(c) + cells(s) + ansi_reset(),
        None => cells(s),
    }
}

/// A document on a terminal.
pub open spec fn terminal_text(spans: Seq<SpanModel>) -> Seq<char>
    decreases spans.len(),
{
    if spans.len() == 0 {
        Seq::empty()
    } else {
        terminal_text(spans.drop_last()) + terminal_span(spans.last())
    }
}

/// The ANSI escape of a color.
pub fn to_code(color: Color) -> (r: &'static str)
    ensures
        r@ == ansi_color(color),
{
    proof {
        reveal_strlit("\x1B[0;31m");
        reveal_strlit("\x1B[0;32m");
        reveal_strlit("\x1B[0;34m");
    }
    match color {
        Color::Red => "\x1B[0;31m",
        Color::Blue => "\x1B[0;34m",
        Color::Green => "\x1B[0;32m",
    }
}

/// Renders for terminals.
pub struct Terminal;

impl Render for Terminal {
    type Output = String;

    open spec fn renders(spans: Seq<SpanModel>, out: String) -> bool {
        out@ == terminal_text(spans)
    }

    fn render(view: View) -> (r: String) {
        let ghost spans = models(view.spans@);
        let mut output = String::new();
        let mut i: usize = 0;
        while i < view.spans.len()
            invariant
                i <= view.spans@.len(),
                spans == models(view.spans@),
                output@ == terminal_text(spans.take(i as int)),
            decreases view.spans@.len() - i,
        {
            let span = &view.spans[i];
            let ghost before = output@;
            if let Some(color) = span.style.fg {
                output.append(to_code(color));
            }
            match &span.content {
                Content::Text(text) => output.append(text.as_str()),
                Content::Newline => output.append("\n"),
            }
            if span.style.fg.is_some() {
                output.append("\x1B[0m");
            }
            proof {
                reveal_strlit("\n");
                reveal_strlit("\x1B[0m");
                let t = spans.take(i + 1);
                assert(t.drop_last() =~= spans.take(i as int));
                assert(t.last() == span.model());
                assert(output@ =~= before + terminal_span(span.model()));
            }
            i = i + 1;
        }
        assert(spans.take(view.spans@.len() as int) =~= spans);
        output
    }
}

} // verus!
