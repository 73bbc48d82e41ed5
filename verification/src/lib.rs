use vstd::prelude::*;

pub mod laws;
pub mod load;
pub mod parse;
pub mod record;
pub mod sieve;
pub mod store;

verus! {

/// The closed set of failures the pipeline reports: a network or local
/// write failure while fetching, a framing failure in the row parser, or
/// a failure of the relational store.
#[derive(Debug)]
pub enum EtlError {
    Transport(String),
    Parse(String),
    Store(String),
}

/// Decides whether an HTTP status code counts as success for a fetch:
/// exactly the 2xx range.
pub fn is_success_status(code: u16) -> (r: bool)
    ensures
        r == (200 <= code && code < 300),
{
    200 <= code && code < 300
}

} // verus!
