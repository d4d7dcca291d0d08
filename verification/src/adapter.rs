//! The client side of the RMVM executor: where it connects.
use vstd::prelude::*;

use crate::text::{chars_of, concat2, is_prefix, owned, skip_chars, starts_with, string_from};

verus! {

/// The endpoint an address names: `grpc://` becomes `http://`, an
/// `http://` or `https://` address stays as it is, and any other address
/// gets `http://` in front.
pub open spec fn normalize_endpoint_spec(input: Seq<char>) -> Seq<char> {
    if is_prefix("grpc://"@, input) {
        "http://"@ + input.skip(7)
    } else if is_prefix("http://"@, input) || is_prefix("https://"@, input) {
        input
    } else {
        "http://"@ + input
    }
}

/// The endpoint an address names (see [`normalize_endpoint_spec`]).
pub fn normalize_endpoint(input: &str) -> (out: String)
    ensures
        out@ == normalize_endpoint_spec(input@),
{
    let cs = chars_of(input);
    if starts_with(&cs, "grpc://") {
        proof {
            reveal_strlit("grpc://");
        }
        let rest = string_from(&skip_chars(&cs, 7));
        concat2("http://", rest.as_str())
    } else if starts_with(&cs, "http://") || starts_with(&cs, "https://") {
        owned(input)
    } else {
        concat2("http://", input)
    }
}

/// Normalizing an endpoint twice gives what normalizing it once gives.
pub proof fn lemma_normalize_idempotent(input: Seq<char>)
    ensures
        normalize_endpoint_spec(normalize_endpoint_spec(input)) == normalize_endpoint_spec(input),
{
    reveal_strlit("grpc://");
    reveal_strlit("http://");
    reveal_strlit("https://");
    let out = normalize_endpoint_spec(input);
    if out != input {
        let rest = if is_prefix("grpc://"@, input) {
            input.skip(7)
        } else {
            input
        };
        assert(out == "http://"@ + rest);
        assert(out.take(7) =~= "http://"@);
    }
    assert(out.len() >= 7 ==> out.take(7)[0] == out[0]);
    if is_prefix("http://"@, out) || is_prefix("https://"@, out) {
        assert(out[0] == 'h');
        assert(!is_prefix("grpc://"@, out));
    }
}

/// A client of an RMVM executor at a normalized endpoint.
pub struct RmvmAdapter {
    endpoint: String,
}

impl RmvmAdapter {
    /// An adapter for the executor at `endpoint`, normalized.
    pub fn new(endpoint: &str) -> (a: RmvmAdapter)
        ensures
            a.endpoint_spec() == normalize_endpoint_spec(endpoint@),
    {
        RmvmAdapter { endpoint: normalize_endpoint(endpoint) }
    }

    /// The endpoint the adapter connects to.
    pub closed spec fn endpoint_spec(&self) -> Seq<char> {
        self.endpoint@
    }

    /// The endpoint the adapter connects to.
    pub fn endpoint(&self) -> (e: &str)
        ensures
            e@ == self.endpoint_spec(),
    {
        self.endpoint.as_str()
    }
}

} // verus!
