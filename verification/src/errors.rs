use vstd::prelude::*;

verus! {

/// The failures a pipeline run can report. Any of them aborts the whole run:
/// partial results are never returned.
#[derive(Clone, Copy, Debug, PartialEq, Eq, Structural)]
pub enum ScrapeError {
    /// The page fetch failed or returned a non-success HTTP status.
    Transport,
    /// A structural selector expression did not compile.
    SelectorSyntax,
    /// A price string did not clean up to a valid decimal numeral.
    PriceParse,
    /// An original price of zero leaves the discount undefined.
    DivisionByZero,
}

impl ScrapeError {
    /// A short description of the failure, for reporting at the program's edge.
    pub fn message(&self) -> (r: &'static str)
        ensures
            *self is Transport ==> r@ == "fetch failed or returned a non-success status"@,
            *self is SelectorSyntax ==> r@ == "malformed structural selector"@,
            *self is PriceParse ==> r@ == "malformed price text"@,
            *self is DivisionByZero ==> r@ == "original price of zero"@,
    {
        match self {
            ScrapeError::Transport => "fetch failed or returned a non-success status",
            ScrapeError::SelectorSyntax => "malformed structural selector",
            ScrapeError::PriceParse => "malformed price text",
            ScrapeError::DivisionByZero => "original price of zero",
        }
    }
}

} // verus!
