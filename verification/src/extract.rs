use vstd::prelude::*;
use vstd::string::StringExecFns;

use crate::errors::ScrapeError;
use crate::html::{
    first_attr, first_text, parse_fragment, parse_selector, sel_src, select_first_attr,
    select_first_text, select_htmls, selected_html, selector_ok,
};
use crate::prices::{
    compute_discount, parse_price, price_ok, render_discount, spec_discount, spec_price,
    spec_render_discount,
};
use crate::record::{create_link, spec_osc8, Function, FunctionV};
use crate::text::{skip_to_digit, spec_skip_to_digit, spec_trim, trim};

verus! {

/// The selector for a product card on the listing page.
pub open spec fn card_selector() -> Seq<char> {
    "li[class=\"cf card\"]"@
}

/// The selector for the info/content wrapper inside a card.
pub open spec fn content_selector() -> Seq<char> {
    "div[class=\"card-content\"]"@
}

/// The selector for the struck-through original price.
pub open spec fn strike_selector() -> Seq<char> {
    "strike"@
}

/// The selector for the anchor that carries the discounted price as text and
/// the title and link as attributes.
pub open spec fn anchor_selector() -> Seq<char> {
    "a[class=\"js-sku-link sku-link\"]"@
}

/// Whether every selector of the pipeline compiles. The selector texts are
/// fixed, so a failure here is a programming-error invariant, reported as
/// `SelectorSyntax` rather than silently assumed away.
pub open spec fn selectors_ok() -> bool {
    selector_ok(card_selector()) && selector_ok(content_selector()) && selector_ok(
        strike_selector(),
    ) && selector_ok(anchor_selector())
}

/// The site origin prefixed to a page-relative href.
pub open spec fn site_origin() -> Seq<char> {
    "https://skroutz.gr"@
}

/// Assembles one record from the raw fields pulled out of a card, enforcing
/// the all-or-nothing rule: a card missing any field yields no record and no
/// error. The discounted-price text is first stripped up to its first digit,
/// both prices are normalized, and the discount is derived from the numeric
/// values. A price that does not normalize, or an original price of zero,
/// aborts the whole pipeline.
pub open spec fn spec_assemble(
    title: Option<Seq<char>>,
    original: Option<Seq<char>>,
    anchor_text: Option<Seq<char>>,
    href: Option<Seq<char>>,
) -> Result<Option<FunctionV>, ScrapeError> {
    match (title, original, anchor_text, href) {
        (Some(t), Some(o), Some(a), Some(h)) => {
            let ds = spec_skip_to_digit(a);
            if !price_ok(o) || !price_ok(ds) {
                Err(ScrapeError::PriceParse)
            } else {
                let po = spec_price(o);
                let pd = spec_price(ds);
                if po.val15() == 0 {
                    Err(ScrapeError::DivisionByZero)
                } else {
                    Ok(
                        Some(
                            FunctionV {
                                name: spec_trim(t),
                                old_price: spec_trim(o),
                                new_price: spec_trim(ds),
                                discount: spec_render_discount(
                                    spec_discount(po, pd).0,
                                    spec_discount(po, pd).1,
                                ),
                                link: spec_trim(spec_osc8(site_origin() + h, "link"@)),
                            },
                        ),
                    )
                }
            }
        },
        _ => Ok(None),
    }
}

/// The view of an optional borrowed text.
pub open spec fn opt_view(o: Option<&str>) -> Option<Seq<char>> {
    match o {
        Option::Some(s) => Some(s@),
        Option::None => None,
    }
}

/// A card is missing a required field: it contributes no record, and no
/// error either, so extraction goes on with the next card.
pub proof fn lemma_partial_card_skipped(
    title: Option<Seq<char>>,
    original: Option<Seq<char>>,
    anchor_text: Option<Seq<char>>,
    href: Option<Seq<char>>,
)
    requires
        title is None || original is None || anchor_text is None || href is None,
    ensures
        spec_assemble(title, original, anchor_text, href) == Ok::<
            Option<FunctionV>,
            ScrapeError,
        >(None),
{
}

/// Builds a record from the raw fields of one card, exactly as
/// `spec_assemble` says.
pub fn assemble_card(
    title: Option<&str>,
    original: Option<&str>,
    anchor_text: Option<&str>,
    href: Option<&str>,
) -> (r: Result<Option<Function>, ScrapeError>)
    ensures
        ({
            let s = spec_assemble(
                opt_view(title),
                opt_view(original),
                opt_view(anchor_text),
                opt_view(href),
            );
            match r {
                Ok(Some(f)) => s == Ok::<Option<FunctionV>, ScrapeError>(Some(f@)),
                Ok(None) => s == Ok::<Option<FunctionV>, ScrapeError>(None),
                Err(e) => s == Err::<Option<FunctionV>, ScrapeError>(e),
            }
        }),
{
    let (t, o, a, h) = match (title, original, anchor_text, href) {
        (Some(t), Some(o), Some(a), Some(h)) => (t, o, a, h),
        _ => {
            return Ok(None);
        },
    };
    let ds = skip_to_digit(a);
    let po = match parse_price(o) {
        Ok(p) => p,
        Err(e) => {
            return Err(e);
        },
    };
    let pd = match parse_price(ds) {
        Ok(p) => p,
        Err(e) => {
            return Err(e);
        },
    };
    let disc = match compute_discount(&po, &pd) {
        Ok(x) => x,
        Err(e) => {
            return Err(e);
        },
    };
    let disc_text = render_discount(&disc);
    let mut url = String::from_str("https://skroutz.gr");
    url.append(h);
    let link = create_link(url, String::from_str("link"));
    Ok(
        Some(
            Function::new(
                trim(t),
                trim(o),
                trim(ds),
                disc_text.as_str(),
                trim(link.as_str()),
            ),
        ),
    )
}

/// The raw title attribute of a card's anchor.
pub open spec fn raw_title(p: Seq<char>) -> Option<Seq<char>> {
    first_attr(p, anchor_selector(), "title"@)
}

/// The raw text of a card's struck-through original price.
pub open spec fn raw_original(p: Seq<char>) -> Option<Seq<char>> {
    first_text(p, strike_selector())
}

/// The raw text of a card's anchor, which carries the discounted price.
pub open spec fn raw_anchor_text(p: Seq<char>) -> Option<Seq<char>> {
    first_text(p, anchor_selector())
}

/// The raw href attribute of a card's anchor.
pub open spec fn raw_href(p: Seq<char>) -> Option<Seq<char>> {
    first_attr(p, anchor_selector(), "href"@)
}

/// The record one re-scoped info element yields, or the error that aborts
/// the run.
pub open spec fn record_of_product(p: Seq<char>) -> Result<Option<FunctionV>, ScrapeError> {
    spec_assemble(raw_title(p), raw_original(p), raw_anchor_text(p), raw_href(p))
}

/// The outer HTML of every info element of every card, cards in the order
/// the selection yields them and info elements in selection order within
/// their card. Each card's outer HTML is re-parsed as a fresh fragment,
/// which scopes the inner selector to that card's descendants.
pub open spec fn products_of_cards(cards: Seq<Seq<char>>) -> Seq<Seq<char>>
    decreases cards.len(),
{
    if cards.len() == 0 {
        Seq::empty()
    } else {
        products_of_cards(cards.drop_last()) + selected_html(cards.last(), content_selector())
    }
}

/// The records of a sequence of info elements in order, stopped by the first
/// error; a card that misses a field is skipped silently.
pub open spec fn records_of_products(ps: Seq<Seq<char>>) -> Result<Seq<FunctionV>, ScrapeError>
    decreases ps.len(),
{
    if ps.len() == 0 {
        Ok(Seq::empty())
    } else {
        match records_of_products(ps.drop_last()) {
            Err(e) => Err(e),
            Ok(rs) => match record_of_product(ps.last()) {
                Err(e) => Err(e),
                Ok(None) => Ok(rs),
                Ok(Some(f)) => Ok(rs.push(f)),
            },
        }
    }
}

/// What extraction yields on a page body: the records of all info elements
/// of all cards, in selection order.
pub open spec fn spec_extract(body: Seq<char>) -> Result<Seq<FunctionV>, ScrapeError> {
    records_of_products(products_of_cards(selected_html(body, card_selector())))
}

/// The views of a sequence of records.
pub open spec fn views_of(s: Seq<Function>) -> Seq<FunctionV> {
    s.map_values(|f: Function| f@)
}

proof fn lemma_records_err_persists(ps: Seq<Seq<char>>, j: int)
    requires
        0 <= j <= ps.len(),
        records_of_products(ps.take(j)) is Err,
    ensures
        records_of_products(ps) == records_of_products(ps.take(j)),
    decreases ps.len(),
{
    if j == ps.len() {
        assert(ps.take(j) =~= ps);
    } else {
        assert(ps.drop_last().take(j) =~= ps.take(j));
        lemma_records_err_persists(ps.drop_last(), j);
    }
}

/// Runs extraction over a fetched page body: select the cards, re-scope to
/// each card's info elements, pull the raw fields, and assemble the records
/// in selection order.
pub fn extract_records(body: &str) -> (r: Result<Vec<Function>, ScrapeError>)
    ensures
        !selectors_ok() ==> r == Err::<Vec<Function>, ScrapeError>(ScrapeError::SelectorSyntax),
        selectors_ok() ==> (match spec_extract(body@) {
            Ok(recs) => r matches Ok(v) && views_of(v@) == recs,
            Err(e) => r == Err::<Vec<Function>, ScrapeError>(e),
        }),
{
    let card_sel = match parse_selector("li[class=\"cf card\"]") {
        Some(s) => s,
        None => {
            return Err(ScrapeError::SelectorSyntax);
        },
    };
    let content_sel = match parse_selector("div[class=\"card-content\"]") {
        Some(s) => s,
        None => {
            return Err(ScrapeError::SelectorSyntax);
        },
    };
    let strike_sel = match parse_selector("strike") {
        Some(s) => s,
        None => {
            return Err(ScrapeError::SelectorSyntax);
        },
    };
    let anchor_sel = match parse_selector("a[class=\"js-sku-link sku-link\"]") {
        Some(s) => s,
        None => {
            return Err(ScrapeError::SelectorSyntax);
        },
    };
    let doc = parse_fragment(body);
    let cards = select_htmls(&doc, &card_sel);
    let ghost card_views = cards@.map_values(|s: String| s@);
    let mut products: Vec<String> = Vec::new();
    let mut i: usize = 0;
    proof {
        assert(card_views.take(0) =~= Seq::<Seq<char>>::empty());
        assert(products@.map_values(|s: String| s@) =~= products_of_cards(card_views.take(0)));
    }
    while i < cards.len()
        invariant
            0 <= i <= cards.len(),
            card_views == cards@.map_values(|s: String| s@),
            sel_src(content_sel) == content_selector(),
            products@.map_values(|s: String| s@) == products_of_cards(card_views.take(i as int)),
        decreases cards.len() - i,
    {
        let cdoc = parse_fragment(cards[i].as_str());
        let mut inner = select_htmls(&cdoc, &content_sel);
        proof {
            let f = |s: String| s@;
            assert(card_views.take(i + 1).drop_last() =~= card_views.take(i as int));
            assert(card_views.take(i + 1).last() == card_views[i as int]);
            assert((products@ + inner@).map_values(f) =~= products@.map_values(f)
                + inner@.map_values(f));
        }
        products.append(&mut inner);
        i = i + 1;
    }
    proof {
        assert(card_views.take(cards@.len() as int) =~= card_views);
    }
    let ghost product_views = products@.map_values(|s: String| s@);
    let mut out: Vec<Function> = Vec::new();
    let mut j: usize = 0;
    proof {
        assert(product_views.take(0) =~= Seq::<Seq<char>>::empty());
        assert(views_of(out@) =~= Seq::<FunctionV>::empty());
    }
    while j < products.len()
        invariant
            0 <= j <= products.len(),
            product_views == products@.map_values(|s: String| s@),
            product_views == products_of_cards(selected_html(body@, card_selector())),
            selectors_ok(),
            sel_src(strike_sel) == strike_selector(),
            sel_src(anchor_sel) == anchor_selector(),
            records_of_products(product_views.take(j as int)) == Ok::<
                Seq<FunctionV>,
                ScrapeError,
            >(views_of(out@)),
        decreases products.len() - j,
    {
        let pdoc = parse_fragment(products[j].as_str());
        let original = select_first_text(&pdoc, &strike_sel);
        let anchor_text = select_first_text(&pdoc, &anchor_sel);
        let title = select_first_attr(&pdoc, &anchor_sel, "title");
        let href = select_first_attr(&pdoc, &anchor_sel, "href");
        let title_r = match &title {
            Some(s) => Some(s.as_str()),
            None => None,
        };
        let original_r = match &original {
            Some(s) => Some(s.as_str()),
            None => None,
        };
        let anchor_r = match &anchor_text {
            Some(s) => Some(s.as_str()),
            None => None,
        };
        let href_r = match &href {
            Some(s) => Some(s.as_str()),
            None => None,
        };
        proof {
            assert(product_views.take(j + 1).drop_last() =~= product_views.take(j as int));
            assert(product_views.take(j + 1).last() == product_views[j as int]);
            assert(product_views[j as int] == products@[j as int]@);
            assert(opt_view(title_r) == raw_title(product_views[j as int]));
            assert(opt_view(original_r) == raw_original(product_views[j as int]));
            assert(opt_view(anchor_r) == raw_anchor_text(product_views[j as int]));
            assert(opt_view(href_r) == raw_href(product_views[j as int]));
        }
        match assemble_card(title_r, original_r, anchor_r, href_r) {
            Err(e) => {
                proof {
                    lemma_records_err_persists(product_views, j + 1);
                }
                return Err(e);
            },
            Ok(None) => {
            },
            Ok(Some(f)) => {
                proof {
                    assert(views_of(out@.push(f)) =~= views_of(out@).push(f@));
                }
                out.push(f);
            },
        }
        j = j + 1;
    }
    proof {
        assert(product_views.take(products@.len() as int) =~= product_views);
    }
    Ok(out)
}

} // verus!
