//! Scripts under `cgi-bin`: the program to run and the query it receives.
use vstd::prelude::*;
use crate::path::{program_part, query_part, split_query};
use crate::text::{decoded, decodes, url_decode};

verus! {

/// A script invocation: the program's path and the value of `QUERY_STRING`.
pub struct Cgi {
    /// The decoded selector up to its first `?`.
    pub program: String,
    /// The decoded selector after its first `?`, with further `?` left out.
    pub query_string: String,
}

impl Cgi {
    /// The invocation for a script path; `None` where the path's
    /// percent-decoding is not UTF-8.
    pub fn new(script: &str) -> (r: Option<Cgi>)
        ensures
            r is Some <==> decodes(script@),
            r is Some ==> r->Some_0.program@ == program_part(decoded(script@))
                && r->Some_0.query_string@ == query_part(decoded(script@)),
    {
        match url_decode(script) {
            Ok(d) => {
                let (program, query_string) = split_query(d.as_str());
                Some(Cgi { program, query_string })
            },
            Err(_) => None,
        }
    }
}

} // verus!
