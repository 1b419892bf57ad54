//! The ways a document can be rendered.
use vstd::prelude::*;
use vstd::view::View as _;
use crate::base::{models, SpanModel, View};

verus! {

/// A way of rendering a `View`.
pub trait Render {
    type Output;

    /// Whether `out` is this renderer's output for a document of `spans`.
    spec fn renders(spans: Seq<SpanModel>, out: Self::Output) -> bool;

    fn render(view: View) -> (r: Self::Output)
        ensures
            Self::renders(models(view.spans@), r),
    ;
}

/// Renders `view` with the renderer `R`.
pub fn render<R: Render>(view: View) -> (r: R::Output)
    ensures
        R::renders(models(view.spans@), r),
{
    R::render(view)
}

} // verus!
