//! Declarations for the outside types and calls the library relies on.

use vstd::prelude::*;
use crate::error::Error;

verus! {

#[verifier::external_type_specification]
#[verifier::external_body]
pub struct ExValue(serde_json::Value);

#[verifier::external_type_specification]
#[verifier::external_body]
pub struct ExUri(hyper::Uri);

/// Whether `s` is accepted as a request target by the HTTP client's URI
/// parser. The outcome depends on the characters of `s` alone.
pub uninterp spec fn uri_parse_ok(s: Seq<char>) -> bool;

/// Relies on the `FromStr` parse of `hyper::Uri`: it accepts or rejects a
/// string on its characters alone, and returns a URI for the given string
/// when it accepts.
#[verifier::external_body]
pub(crate) fn parse_uri(s: &String) -> (r: Result<hyper::Uri, Error>)
    ensures
        r is Ok <==> uri_parse_ok(s@),
        r matches Err(e) ==> (e matches Error::InvalidUrl { url } && url@ == s@),
{
    match s.parse::<hyper::Uri>() {
        Ok(uri) => Ok(uri),
        Err(_) => Err(Error::InvalidUrl { url: s.clone() }),
    }
}

} // verus!
