//! Markdown to HTML, with the table extension on.
use vstd::prelude::*;
use pulldown_cmark::{html, Options, Parser};

verus! {

/// The HTML that CommonMark rendering with tables gives for `src`.
pub uninterp spec fn markdown_html_of(src: Seq<char>) -> Seq<char>;

/// Relies on pulldown_cmark's `Parser::new_ext` with `ENABLE_TABLES` and
/// `html::push_html` into an empty string: the HTML depends on `content` alone.
#[verifier::external_body]
pub(crate) fn to_html(content: &str) -> (r: String)
    ensures
        r@ == markdown_html_of(content@),
{
    let parser = Parser::new_ext(content, Options::ENABLE_TABLES);
    let mut out = String::new();
    html::push_html(&mut out, parser);
    out
}

} // verus!
