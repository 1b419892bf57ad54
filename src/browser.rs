//! Rendering for browsers: a small HTML document around a `<pre>` block.
use vstd::prelude::*;
use vstd::string::*;
use vstd::view::View as _;
use crate::base::{cells, models, Color, Content, SpanModel, View};
use crate::render::Render;

verus! {

/// Everything before the document's text: a dark theme, a monospace font and
/// a class per color.
pub const HTML_HEAD: &'static str = r#"<html>
                <head>
                    <link rel="stylesheet" href="https://fonts.googleapis.com/css?family=Fira+Code">
                    <style type="text/css">
                        body {
                            background: #282828;
                            color: #ebdbb2;
                        }
                        pre {
                            font-family: "Fira Code", "Courier New", "DejaVu Sans Mono", "Lucida Console", monospace;
                        }
                        .bold {
                            font-weight: bold;
                        }
                        .red {
                            color: #cc241d;
                        }
                        .blue {
                            color: #bbbbbb;
                        }
                        .green {
                            color: #98971a;
                        }
                    </style>
                </head>
                <body><pre>"#;

/// Everything after the document's text.
pub const HTML_TAIL: &'static str = r#"
                </pre></body>
            </html>
        "#;

/// The CSS class of a color.
pub open spec fn color_class(c: Color) -> Seq<char> {
    match c {
        Color::Red => seq!['r', 'e', 'd'],
        Color::Green => seq!['g', 'r', 'e', 'e', 'n'],
        Color::Blue => seq!['b', 'l', 'u', 'e'],
    }
}

/// One span in the page: colored text inside a `<span>` of its color's class.
pub open spec fn browser_span(s: SpanModel) -> Seq<char> {
    match s.style.fg {
        Some(c) => "<span class=\""@ + color_class(c) + "\">"@ + cells(s) + "</span>"@,
        None => cells(s),
    }
}

/// The spans of a document in the page, one after another.
pub open spec fn browser_body(spans: Seq<SpanModel>) -> Seq<char>
    decreases spans.len(),
{
    if spans.len() == 0 {
        Seq::empty()
    } else {
        browser_body(spans.drop_last()) + browser_span(spans.last())
    }
}

/// The page of a document.
pub open spec fn browser_page(spans: Seq<SpanModel>) -> Seq<char> {
    HTML_HEAD@ + browser_body(spans) + HTML_TAIL@
}

/// The CSS class of a color.
pub fn color_to_str(color: Color) -> (r: &'static str)
    ensures
        r@ == color_class(color),
{
    proof {
        reveal_strlit("red");
        reveal_strlit("green");
        reveal_strlit("blue");
    }
    match color {
        Color::Red => "red",
        Color::Green => "green",
        Color::Blue => "blue",
    }
}

/// Renders for browsers.
pub struct Browser;

impl Render for Browser {
    type Output = String;

    open spec fn renders(spans: Seq<SpanModel>, out: String) -> bool {
        out@ == browser_page(spans)
    }

    fn render(view: View) -> (r: String) {
        let ghost spans = models(view.spans@);
        let mut output = String::from_str(HTML_HEAD);
        let mut i: usize = 0;
        while i < view.spans.len()
            invariant
                i <= view.spans@.len(),
                spans == models(view.spans@),
                output@ == HTML_HEAD@ + browser_body(spans.take(i as int)),
            decreases view.spans@.len() - i,
        {
            let span = &view.spans[i];
            let ghost before = output@;
            if let Some(color) = span.style.fg {
                output.append("<span class=\"");
                output.append(color_to_str(color));
                output.append("\">");
            }
            match &span.content {
                Content::Text(text) => output.append(text.as_str()),
                Content::Newline => output.append("\n"),
            }
            if span.style.fg.is_some() {
                output.append("</span>");
            }
            proof {
                reveal_strlit("\n");
                let t = spans.take(i + 1);
                assert(t.drop_last() =~= spans.take(i as int));
                assert(t.last() == span.model());
                assert(output@ =~= before + browser_span(span.model()));
            }
            i = i + 1;
        }
        assert(spans.take(view.spans@.len() as int) =~= spans);
        output.append(HTML_TAIL);
        output
    }
}

} // verus!
