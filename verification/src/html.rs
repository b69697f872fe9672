use vstd::prelude::*;

use crate::record::Function;
use rand::seq::SliceRandom;

verus! {

// The outside HTML machinery. The parsed tree and the compiled selector are
// opaque to the verifier; what the calls return is pinned down by names over
// the plain texts they were built from, since parsing, compiling and
// matching are pure functions of those texts.

/// scraper's parsed HTML tree.
#[verifier::external_type_specification]
#[verifier::external_body]
pub struct ExHtml(scraper::Html);

/// scraper's compiled structural selector.
#[verifier::external_type_specification]
#[verifier::external_body]
pub struct ExSelector(scraper::Selector);

/// The fragment text a parsed document was built from.
pub uninterp spec fn doc_src(d: scraper::Html) -> Seq<char>;

/// The selector text a compiled selector was built from.
pub uninterp spec fn sel_src(s: scraper::Selector) -> Seq<char>;

/// Whether a selector text compiles.
pub uninterp spec fn selector_ok(sel: Seq<char>) -> bool;

/// The outer HTML of every element the selector matches in the document, in
/// the order the crate's selection iterator yields them — a fixed order for
/// given texts.
pub uninterp spec fn selected_html(doc: Seq<char>, sel: Seq<char>) -> Seq<Seq<char>>;

/// The concatenated text content of the first element the selector matches,
/// when one matches.
pub uninterp spec fn first_text(doc: Seq<char>, sel: Seq<char>) -> Option<Seq<char>>;

/// The named attribute of the first element the selector matches, when one
/// matches and carries the attribute.
pub uninterp spec fn first_attr(doc: Seq<char>, sel: Seq<char>, name: Seq<char>) -> Option<
    Seq<char>,
>;

/// Relies on scraper::Html::parse_fragment: parsing a fragment is a pure
/// function of the fragment text.
#[verifier::external_body]
pub(crate) fn parse_fragment(html: &str) -> (d: scraper::Html)
    ensures
        doc_src(d) == html@,
{
    scraper::Html::parse_fragment(html)
}

/// Relies on scraper::Selector::parse: compiling a selector is a pure
/// function of the selector text, and fails exactly on malformed text.
#[verifier::external_body]
pub(crate) fn parse_selector(sel: &str) -> (r: Option<scraper::Selector>)
    ensures
        r is Some <==> selector_ok(sel@),
        (r matches Some(s) ==> sel_src(s) == sel@),
{
    scraper::Selector::parse(sel).ok()
}

/// Relies on scraper's Html::select and ElementRef::html: every match the
/// selection yields, in order, serialized back to its outer HTML.
#[verifier::external_body]
pub(crate) fn select_htmls(doc: &scraper::Html, sel: &scraper::Selector) -> (r: Vec<String>)
    ensures
        r@.map_values(|s: String| s@) == selected_html(doc_src(*doc), sel_src(*sel)),
{
    doc.select(sel).map(|e| e.html()).collect()
}

/// Relies on scraper's Html::select and ElementRef::text: the text parts of
/// the first match, concatenated.
#[verifier::external_body]
pub(crate) fn select_first_text(doc: &scraper::Html, sel: &scraper::Selector) -> (r: Option<
    String,
>)
    ensures
        (r matches Some(s) ==> first_text(doc_src(*doc), sel_src(*sel)) == Some(s@)),
        (r is None ==> first_text(doc_src(*doc), sel_src(*sel)) is None),
{
    doc.select(sel).next().map(|e| e.text().collect::<String>())
}

/// Relies on scraper's Html::select and ElementRef::attr: the named
/// attribute of the first match.
#[verifier::external_body]
pub(crate) fn select_first_attr(doc: &scraper::Html, sel: &scraper::Selector, name: &str) -> (r:
    Option<String>)
    ensures
        (r matches Some(s) ==> first_attr(doc_src(*doc), sel_src(*sel), name@) == Some(s@)),
        (r is None ==> first_attr(doc_src(*doc), sel_src(*sel), name@) is None),
{
    doc.select(sel).next().and_then(|e| e.attr(name)).map(|a| a.to_string())
}

/// Relies on rand's SliceRandom::shuffle: a permutation of the slice in
/// place; which permutation comes out depends on the process random source,
/// so only the multiset of records is promised.
#[verifier::external_body]
pub(crate) fn shuffle_records(v: &mut Vec<Function>)
    ensures
        final(v)@.len() == old(v)@.len(),
        final(v)@.map_values(|f: Function| f@).to_multiset() == old(v)@.map_values(
            |f: Function| f@,
        ).to_multiset(),
{
    v.shuffle(&mut rand::thread_rng());
}

} // verus!
