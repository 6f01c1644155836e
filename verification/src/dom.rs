//! The HTML side of the library: the `scraper` types that the extraction
//! carries, and the calls into `scraper` that it makes.
//!
//! Nothing in this file is proved. `scraper` parses the page and matches the
//! selectors; what it hands back is given a name here, and the rest of the
//! library is verified against those names. Each name claims one thing only:
//! that the call is a function of its arguments.
//!
//! The parser keeps every text of the tree (a text node, a comment, an
//! attribute value, a name) in a buffer that grows to the next power of two
//! of a `u32`, and panics when it is asked for more than 2^31 bytes. A page
//! can make such a text three times as long as the page itself: each NUL byte
//! becomes a replacement character of three bytes. So no page longer than
//! [`MAX_PAGE_BYTES`], a third of 2^31, is handed to it. What the machine
//! cannot allocate is another matter, and no bound on the page rules it out.

use scraper::error::SelectorErrorKind;
use scraper::{ElementRef, Html, Selector};
use vstd::prelude::*;

verus! {

/// `scraper::Html`, a parsed page. Its tree is not visible to the verifier.
#[verifier::external_type_specification]
#[verifier::external_body]
pub struct ExHtml(Html);

/// `scraper::Selector`, a compiled group of CSS selectors.
#[verifier::external_type_specification]
#[verifier::external_body]
pub struct ExSelector(Selector);

/// `scraper::error::SelectorErrorKind`, the reason a selector did not compile.
#[verifier::external_type_specification]
#[verifier::external_body]
pub struct ExSelectorErrorKind(SelectorErrorKind);

/// `scraper::ElementRef`, one element of a parsed page.
#[verifier::external_type_specification]
#[verifier::external_body]
pub struct ExElementRef<'a>(ElementRef<'a>);

/// The longest page, in bytes, that is handed to the parser: a third of
/// 2^31, rounded down.
pub const MAX_PAGE_BYTES: usize = 715827882;

/// Whether a page is short enough for the parser, by its length in bytes.
pub open spec fn page_fits(html: &str) -> bool {
    html.len() <= MAX_PAGE_BYTES
}

/// The page that `Html::parse_document` builds from `source`.
pub uninterp spec fn parsed_document(source: Seq<char>) -> Html;

/// What `Selector::parse` makes of `css`: the compiled selector, or the
/// reason there is none.
pub uninterp spec fn compiled_selector(css: Seq<char>) -> Result<Selector, SelectorErrorKind>;

/// The elements of `document` that `Html::select` yields for `selector`, in
/// the order in which it yields them.
pub uninterp spec fn document_matches(document: Html, selector: Selector) -> Seq<
    ElementRef<'static>,
>;

/// The elements below `scope` that `ElementRef::select` yields for
/// `selector`, in the order in which it yields them.
pub uninterp spec fn element_matches(scope: ElementRef, selector: Selector) -> Seq<
    ElementRef<'static>,
>;

/// The text nodes below `element` that `ElementRef::text` yields, in the
/// order in which it yields them.
pub uninterp spec fn text_nodes(element: ElementRef) -> Seq<Seq<char>>;

/// `Html::parse_document` builds a tree from any text that its buffers can
/// hold, and does not fail on one. The tree it builds depends on the text
/// alone. A buffer of the tree that is to grow beyond 2^31 bytes makes it
/// panic, and a buffer can hold up to three bytes for each byte of the text,
/// so only a text of at most a third of 2^31 bytes may be handed to it.
pub assume_specification[ Html::parse_document ](document: &str) -> (parsed: Html)
    requires
        3 * document.len() <= 0x8000_0000,
    ensures
        parsed == parsed_document(document@),
;

/// `Selector::parse` compiles a selector or says why it cannot. Which of the
/// two depends on the text alone.
pub assume_specification[ Selector::parse ](selectors: &str) -> (compiled: Result<
    Selector,
    SelectorErrorKind,
>)
    ensures
        compiled == compiled_selector(selectors@),
;

/// Runs `Html::select` to its end and keeps every element it yields, in
/// order. The iterator walks the nodes of the tree once, so it ends.
#[verifier::external_body]
pub(crate) fn select_in_document<'a>(document: &'a Html, selector: &Selector) -> (found: Vec<
    ElementRef<'a>,
>)
    ensures
        found@ == document_matches(*document, *selector),
{
    document.select(selector).collect()
}

/// Runs `ElementRef::select` to its end and keeps every element it yields,
/// in order. The iterator walks the nodes below `scope` once, so it ends.
#[verifier::external_body]
pub(crate) fn select_in_element<'a>(scope: &ElementRef<'a>, selector: &Selector) -> (found: Vec<
    ElementRef<'a>,
>)
    ensures
        found@ == element_matches(*scope, *selector),
{
    scope.select(selector).collect()
}

/// Runs `ElementRef::text` to its end and keeps every text node it yields,
/// in order, each as it stands in the tree.
#[verifier::external_body]
pub(crate) fn text_nodes_of<'a>(element: &ElementRef<'a>) -> (nodes: Vec<&'a str>)
    ensures
        nodes.deep_view() == text_nodes(*element),
{
    element.text().collect()
}

} // verus!
