//! The headers that let browsers call the gateway from other origins.

use vstd::prelude::*;
use crate::text::pairs_view;

verus! {

/// Decorates every response with the same four headers.
pub struct Cors {}

/// The headers that `Cors` sets, as names and values.
pub open spec fn cors_headers() -> Seq<(Seq<char>, Seq<char>)> {
    seq![
        ("Access-Control-Allow-Methods"@, "POST, GET, OPTIONS"@),
        ("Access-Control-Allow-Origin"@, "*"@),
        ("Access-Control-Allow-Credentials"@, "true"@),
        ("Access-Control-Allow-Headers"@, "Content-Type"@),
    ]
}

impl Cors {
    /// The decorator. It has no state.
    pub fn new() -> (cors: Cors)
        ensures
            cors == (Cors {  }),
    {
        Cors {  }
    }

    /// The name under which the decorator is registered.
    pub fn info(&self) -> (name: &'static str)
        ensures
            name@ == "Cors"@,
    {
        "Cors"
    }

    /// The headers to set on a response, whatever the request was.
    pub fn on_response(&self) -> (headers: Vec<(String, String)>)
        ensures
            pairs_view(headers@) == cors_headers(),
    {
        let mut headers: Vec<(String, String)> = Vec::new();
        headers.push(("Access-Control-Allow-Methods".to_owned(), "POST, GET, OPTIONS".to_owned()));
        headers.push(("Access-Control-Allow-Origin".to_owned(), "*".to_owned()));
        headers.push(("Access-Control-Allow-Credentials".to_owned(), "true".to_owned()));
        headers.push(("Access-Control-Allow-Headers".to_owned(), "Content-Type".to_owned()));
        assert(pairs_view(headers@) =~= cors_headers());
        headers
    }
}

} // verus!
