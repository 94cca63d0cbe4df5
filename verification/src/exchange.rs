//! Finding the two rates of a conversion.

use crate::args::{ConversionRequest, Request};
use crate::table::RateTable;
use vstd::prelude::*;

verus! {

/// Which code of a request the table does not hold.
#[derive(Clone, Copy, Debug, PartialEq, Eq, Structural)]
pub enum LookupError {
    /// The table has no rate for the code to convert from.
    FromMissing,
    /// The table has a rate for the code to convert from, and none for the
    /// code to convert to.
    ToMissing,
}

/// The rates of the two currencies of a request, as IEEE-754 bit patterns.
/// The amount converts by the quotient of `to` and `from`.
#[derive(Clone, Copy, Debug, PartialEq, Eq, Structural)]
pub struct Quote {
    pub from: u64,
    pub to: u64,
}

/// The rates of a request. The code to convert from is looked up first.
pub open spec fn quote_of(rates: Map<Seq<char>, u64>, request: Request) -> Result<
    Quote,
    LookupError,
> {
    if !rates.contains_key(request.from) {
        Err(LookupError::FromMissing)
    } else if !rates.contains_key(request.to) {
        Err(LookupError::ToMissing)
    } else {
        Ok(Quote { from: rates[request.from], to: rates[request.to] })
    }
}

/// Looks up the rates of the two currencies of a request.
pub fn find_rates(table: &RateTable, request: &ConversionRequest) -> (found: Result<
    Quote,
    LookupError,
>)
    ensures
        found == quote_of(table@, request@),
{
    let from = match table.get(request.from.as_str()) {
        Some(bits) => bits,
        None => {
            return Err(LookupError::FromMissing);
        },
    };
    match table.get(request.to.as_str()) {
        Some(to) => Ok(Quote { from, to }),
        None => Err(LookupError::ToMissing),
    }
}

} // verus!
