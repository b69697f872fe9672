use vstd::prelude::*;
use vstd::string::StringExecFns;

use crate::errors::ScrapeError;
use crate::extract::{extract_records, selectors_ok, spec_extract, views_of};
use crate::html::shuffle_records;
use crate::record::Function;
use crate::text::{dec_rep, u128_to_string};
use crate::{spec_status_success, status_success};

verus! {

/// The deals listing URL for one page index, with the ordering and recency
/// query parameters embedded.
pub open spec fn spec_url(page: nat) -> Seq<char> {
    "https://www.skroutz.gr/deals?order_by=recommended&recent=1&page="@ + dec_rep(page)
}

/// Builds the deals listing URL for one page index.
pub fn build_url(page: usize) -> (r: String)
    ensures
        r@ == spec_url(page as nat),
{
    let mut r = String::from_str(
        "https://www.skroutz.gr/deals?order_by=recommended&recent=1&page=",
    );
    let digits = u128_to_string(page as u128);
    r.append(digits.as_str());
    r
}

/// Runs the pipeline on one fetched response. A non-success status fails
/// with `Transport` and yields nothing. Otherwise the records are extracted
/// from the body in selection order, the collection is truncated to at most
/// `number_of_items` — saturating, so asking for more than exist returns
/// them all — and the kept records are shuffled: the result holds exactly
/// the multiset of the first records, in some order.
pub fn process_response(status: u16, body: &str, number_of_items: usize) -> (r: Result<
    Vec<Function>,
    ScrapeError,
>)
    ensures
        !spec_status_success(status) ==> r == Err::<Vec<Function>, ScrapeError>(
            ScrapeError::Transport,
        ),
        spec_status_success(status) && !selectors_ok() ==> r == Err::<Vec<Function>, ScrapeError>(
            ScrapeError::SelectorSyntax,
        ),
        spec_status_success(status) && selectors_ok() ==> (match spec_extract(body@) {
            Ok(recs) => ({
                let k = vstd::math::min(recs.len() as int, number_of_items as int);
                r matches Ok(v) && v@.len() == k && views_of(v@).to_multiset() == recs.take(
                    k,
                ).to_multiset()
            }),
            Err(e) => r == Err::<Vec<Function>, ScrapeError>(e),
        }),
{
    if !status_success(status) {
        return Err(ScrapeError::Transport);
    }
    let mut v = match extract_records(body) {
        Ok(v) => v,
        Err(e) => {
            return Err(e);
        },
    };
    let ghost recs = views_of(v@);
    let ghost k = vstd::math::min(recs.len() as int, number_of_items as int);
    v.truncate(number_of_items);
    proof {
        assert(views_of(v@) =~= recs.take(k));
    }
    shuffle_records(&mut v);
    Ok(v)
}

} // verus!
