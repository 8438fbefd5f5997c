//! Domain extractor: parses a validated URL to its registrable host,
//! removing the `www.` label, with a fixed sentinel for unparsable input.
use vstd::prelude::*;
use crate::text::{spec_replace, replace_all, str_to_chars, chars_to_string};

verus! {

/// The host component that URL parsing assigns to `s`: `None` when `s` is
/// not a parsable absolute URL or when the URL carries no host. The result
/// depends on the characters of `s` alone.
pub uninterp spec fn host_of(s: Seq<char>) -> Option<Seq<char>>;

/// Relies on `url::Url::parse` and `url::Url::host_str`: parsing a string is
/// a function of its characters alone, and `host_str` returns the host
/// component of a parsed URL, or `None` when the URL has none.
#[verifier::external_body]
fn parse_host(url: &str) -> (r: Option<String>)
    ensures
        match r {
            Some(h) => host_of(url@) == Some(h@),
            None => host_of(url@) is None,
        },
{
    match url::Url::parse(url) {
        Ok(u) => match u.host_str() {
            Some(h) => Some(h.to_string()),
            None => None,
        },
        Err(_) => None,
    }
}

/// The registrable host of `s`: the parsed host with every occurrence of
/// `www.` removed, or the sentinel `unknown` when `s` has no parsable host.
pub open spec fn spec_extract_domain(s: Seq<char>) -> Seq<char> {
    match host_of(s) {
        Some(h) => spec_replace(h, "www."@, ""@),
        None => "unknown"@,
    }
}

pub fn extract_domain(url: &str) -> (out: String)
    ensures
        out@ == spec_extract_domain(url@),
{
    match parse_host(url) {
        Some(h) => {
            let hv = str_to_chars(h.as_str());
            let cleaned = replace_all(&hv, &str_to_chars("www."), &str_to_chars(""));
            chars_to_string(&cleaned)
        },
        None => String::from_str("unknown"),
    }
}

/// Domain fallback: a string without a parsable host yields exactly the
/// sentinel `unknown`.
pub proof fn lemma_domain_fallback(s: Seq<char>)
    requires
        host_of(s) is None,
    ensures
        spec_extract_domain(s) == "unknown"@,
{
}

} // verus!
