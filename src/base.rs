//! The styled-text document model that every section produces and every
//! renderer consumes.
use vstd::prelude::*;
use vstd::string::*;
use vstd::view::View as _;

verus! {

/// A whole document, as styled spans in reading order, ready for a renderer.
pub struct View {
    pub spans: Vec<Span>,
}

/// One row of interior content: spans that hold no line break.
pub type Line = Vec<Span>;

/// A contiguous piece of content with one style. Spans never nest.
#[derive(Clone, Debug, PartialEq, Eq)]
pub struct Span {
    pub content: Content,
    pub style: Style,
}

/// Either a piece of text or a line break, never both.
#[derive(Clone, Debug, PartialEq, Eq)]
pub enum Content {
    Text(String),
    Newline,
}

/// Style attributes of a span.
#[derive(Copy, Clone, Debug, PartialEq, Eq, Structural)]
pub struct Style {
    pub fg: Option<Color>,
    pub bg: Option<Color>,
    pub bold: bool,
}

/// The colors available for styling.
#[derive(Copy, Clone, Debug, PartialEq, Eq, Structural)]
pub enum Color {
    Green,
    Blue,
    Red,
}

/// What a span's content stands for.
pub enum ContentModel {
    Text(Seq<char>),
    Newline,
}

/// What a span stands for.
pub struct SpanModel {
    pub content: ContentModel,
    pub style: Style,
}

/// No color, not bold.
pub open spec fn plain_style() -> Style {
    Style { fg: None, bg: None, bold: false }
}

/// Only a foreground color.
pub open spec fn fg_style(c: Color) -> Style {
    Style { fg: Some(c), bg: None, bold: false }
}

/// Unstyled text.
pub open spec fn plain(t: Seq<char>) -> SpanModel {
    SpanModel { content: ContentModel::Text(t), style: plain_style() }
}

/// Text in a foreground color.
pub open spec fn painted(t: Seq<char>, c: Color) -> SpanModel {
    SpanModel { content: ContentModel::Text(t), style: fg_style(c) }
}

/// An unstyled line break.
pub open spec fn line_break() -> SpanModel {
    SpanModel { content: ContentModel::Newline, style: plain_style() }
}

impl Content {
    pub open spec fn model(&self) -> ContentModel {
        match self {
            Content::Text(t) => ContentModel::Text(t@),
            Content::Newline => ContentModel::Newline,
        }
    }
}

impl Span {
    pub open spec fn model(&self) -> SpanModel {
        SpanModel { content: self.content.model(), style: self.style }
    }

    /// A span of text with default styles.
    pub fn new(text: &str) -> (r: Span)
        ensures
            r.model() == plain(text@),
    {
        Span { content: Content::Text(String::from_str(text)), style: Style::default() }
    }

    /// A line break.
    pub fn newline() -> (r: Span)
        ensures
            r.model() == line_break(),
    {
        Span { content: Content::Newline, style: Style::default() }
    }

    /// The span's style, to change in place.
    pub fn style(&mut self) -> (r: &mut Style)
        ensures
            *r == old(self).style,
            final(self).content == old(self).content,
            final(self).style == *final(r),
    {
        &mut self.style
    }

    /// A span of unstyled text that takes `text` over.
    pub fn text(text: String) -> (r: Span)
        ensures
            r.model() == plain(text@),
    {
        Span { content: Content::Text(text), style: Style::default() }
    }

    /// A span of text in the foreground color `color`.
    pub fn colored(text: String, color: Color) -> (r: Span)
        ensures
            r.model() == painted(text@, color),
    {
        let mut span = Span::text(text);
        span.style.fg = Some(color);
        span
    }
}

impl Default for Style {
    fn default() -> (r: Style)
        ensures
            r == plain_style(),
    {
        Style { fg: None, bg: None, bold: false }
    }
}

impl Style {
    /// Sets the foreground color.
    pub fn fg(&mut self, color: Color) -> (r: &mut Self)
        ensures
            *r == (Style { fg: Some(color), ..*old(self) }),
            *final(self) == *final(r),
    {
        self.fg = Some(color);
        self
    }

    /// Sets the background color.
    pub fn bg(&mut self, color: Color) -> (r: &mut Self)
        ensures
            *r == (Style { bg: Some(color), ..*old(self) }),
            *final(self) == *final(r),
    {
        self.bg = Some(color);
        self
    }

    /// Makes the text bold.
    pub fn bold(&mut self) -> (r: &mut Self)
        ensures
            *r == (Style { bold: true, ..*old(self) }),
            *final(self) == *final(r),
    {
        self.bold = true;
        self
    }
}

/// The models of a sequence of spans.
pub open spec fn models(s: Seq<Span>) -> Seq<SpanModel> {
    s.map_values(|x: Span| x.model())
}

/// The cells that one span fills; a break counts as its newline character.
pub open spec fn cells(s: SpanModel) -> Seq<char> {
    match s.content {
        ContentModel::Text(t) => t,
        ContentModel::Newline => seq!['\n'],
    }
}

/// The text of a run of spans, concatenated.
pub open spec fn line_text(s: Seq<SpanModel>) -> Seq<char>
    decreases s.len(),
{
    if s.len() == 0 {
        Seq::empty()
    } else {
        line_text(s.drop_last()) + cells(s.last())
    }
}

/// The number of cells a run of spans occupies.
pub open spec fn width(s: Seq<SpanModel>) -> nat {
    line_text(s).len()
}

/// Whether a run of spans holds no line break.
pub open spec fn is_line(s: Seq<SpanModel>) -> bool {
    forall|i: int| 0 <= i < s.len() ==> s[i].content is Text
}

pub proof fn lemma_line_text_concat(a: Seq<SpanModel>, b: Seq<SpanModel>)
    ensures
        line_text(a + b) == line_text(a) + line_text(b),
    decreases b.len(),
{
    if b.len() == 0 {
        assert(a + b =~= a);
        assert(line_text(b) =~= Seq::<char>::empty());
        assert(line_text(a) + line_text(b) =~= line_text(a));
    } else {
        lemma_line_text_concat(a, b.drop_last());
        assert((a + b).drop_last() =~= a + b.drop_last());
        assert(line_text(a + b) =~= line_text(a) + line_text(b));
    }
}

pub proof fn lemma_models_push(s: Seq<Span>, x: Span)
    ensures
        models(s.push(x)) == models(s).push(x.model()),
{
    assert(models(s.push(x)) =~= models(s).push(x.model()));
}

pub proof fn lemma_models_concat(a: Seq<Span>, b: Seq<Span>)
    ensures
        models(a + b) == models(a) + models(b),
{
    assert(models(a + b) =~= models(a) + models(b));
}

pub proof fn lemma_line_text_one(s: SpanModel)
    ensures
        line_text(seq![s]) == cells(s),
{
    let e = Seq::<SpanModel>::empty();
    assert(seq![s].drop_last() =~= e);
    assert(seq![s].last() == s);
    assert(line_text(e) == Seq::<char>::empty());
    assert(line_text(seq![s]) == line_text(e) + cells(s));
    assert(line_text(seq![s]) =~= cells(s));
}

} // verus!
