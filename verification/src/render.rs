//! The markup renderer: lightweight markup text in, HTML out.

use vstd::prelude::*;

verus! {

/// The HTML that the renderer produces for a given markup text.
///
/// The renderer compiles CommonMark; spelling its output out would take
/// pages, so the library names the result and proves everything
/// downstream relative to the name. The output is a function of the
/// markup text alone.
pub uninterp spec fn html_of(markup: Seq<char>) -> Seq<char>;

/// Renders lightweight markup to HTML.
///
/// Relies on `markdown::to_html`: it compiles markup to HTML according to
/// CommonMark and returns for every input (with the default options no
/// input can make it fail), and its result depends on the markup text
/// alone.
#[verifier::external_body]
pub(crate) fn render(markup: &str) -> (html: String)
    ensures
        html@ == html_of(markup@),
{
    markdown::to_html(markup)
}

} // verus!
