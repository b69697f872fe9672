//! Extraction pipeline for a retail deals listing page: parse the fetched
//! HTML, locate repeated product cards through structural selectors, pull the
//! price and link sub-elements out of each card, normalize the price text,
//! derive the discount percentage, and assemble typed records, finally
//! truncating to the requested count and shuffling.

use vstd::prelude::*;

pub mod errors;
pub mod extract;
pub mod html;
pub mod pipeline;
pub mod prices;
pub mod record;
pub mod text;

pub use crate::errors::ScrapeError;
pub use crate::extract::{assemble_card, extract_records};
pub use crate::pipeline::{build_url, process_response};
pub use crate::prices::{compute_discount, parse_price, render_discount, Discount, Price};
pub use crate::record::{create_link, Function, FunctionV};
pub use crate::text::{trim, skip_to_digit, u128_to_string};

verus! {

/// An HTTP status code that reports success.
pub open spec fn spec_status_success(status: u16) -> bool {
    200 <= status < 300
}

/// Decides whether a response status lets the pipeline continue.
pub fn status_success(status: u16) -> (r: bool)
    ensures
        r == spec_status_success(status),
{
    200 <= status && status < 300
}

} // verus!
