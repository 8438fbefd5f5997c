//! Candidate validator: accepts a normalized string as an image URL when it
//! carries an http-like scheme prefix and a recognized image extension, and
//! rejects it when it contains a noise-pattern substring.
use vstd::prelude::*;
use crate::text::{
    match_at, contains_pat, spec_lower, lower_char, is_match_at, contains_sub, to_lower_chars,
    str_to_chars,
};

verus! {

/// True of exactly the noise-pattern substrings whose presence (in the
/// case-folded string) forces rejection.
pub open spec fn is_blocklisted(b: Seq<char>) -> bool {
    ||| b == "encrypted-tbn"@
    ||| b == "gstatic.com"@
    ||| b == "logo"@
    ||| b == "icon"@
    ||| b == "base64"@
}

/// True of exactly the recognized image-extension substrings.
pub open spec fn is_image_extension(e: Seq<char>) -> bool {
    ||| e == ".jpg"@
    ||| e == ".jpeg"@
    ||| e == ".png"@
    ||| e == ".gif"@
    ||| e == ".webp"@
}

/// Accept iff, on the case-folded string: it begins with `http`, it contains
/// at least one recognized image extension anywhere (a trailing query string
/// is tolerated: this is a substring test, not a suffix test), and it
/// contains no blocklisted substring.
pub open spec fn spec_is_valid_image_url(s: Seq<char>) -> bool {
    let low = spec_lower(s);
    &&& match_at(low, "http"@, 0)
    &&& exists|e: Seq<char>| is_image_extension(e) && contains_pat(low, e)
    &&& forall|b: Seq<char>| is_blocklisted(b) ==> !contains_pat(low, b)
}

pub fn is_valid_image_url(url: &str) -> (ok: bool)
    ensures
        ok == spec_is_valid_image_url(url@),
{
    let v = str_to_chars(url);
    let low = to_lower_chars(&v);
    proof {
        assert(is_image_extension(".jpg"@));
        assert(is_image_extension(".jpeg"@));
        assert(is_image_extension(".png"@));
        assert(is_image_extension(".gif"@));
        assert(is_image_extension(".webp"@));
        assert(is_blocklisted("encrypted-tbn"@));
        assert(is_blocklisted("gstatic.com"@));
        assert(is_blocklisted("logo"@));
        assert(is_blocklisted("icon"@));
        assert(is_blocklisted("base64"@));
    }
    if !is_match_at(&low, &str_to_chars("http"), 0) {
        return false;
    }
    let has_ext = contains_sub(&low, &str_to_chars(".jpg")) || contains_sub(
        &low,
        &str_to_chars(".jpeg"),
    ) || contains_sub(&low, &str_to_chars(".png")) || contains_sub(&low, &str_to_chars(".gif"))
        || contains_sub(&low, &str_to_chars(".webp"));
    if !has_ext {
        assert(forall|e: Seq<char>| is_image_extension(e) ==> !contains_pat(spec_lower(url@), e));
        return false;
    }
    let blocked = contains_sub(&low, &str_to_chars("encrypted-tbn")) || contains_sub(
        &low,
        &str_to_chars("gstatic.com"),
    ) || contains_sub(&low, &str_to_chars("logo")) || contains_sub(&low, &str_to_chars("icon"))
        || contains_sub(&low, &str_to_chars("base64"));
    if blocked {
        return false;
    }
    assert(forall|b: Seq<char>| is_blocklisted(b) ==> !contains_pat(spec_lower(url@), b));
    true
}

proof fn lemma_blocklist_entries_are_lowercase(b: Seq<char>)
    requires
        is_blocklisted(b),
    ensures
        forall|k: int| 0 <= k < b.len() ==> lower_char(b[k]) == b[k],
{
    reveal_strlit("encrypted-tbn");
    reveal_strlit("gstatic.com");
    reveal_strlit("logo");
    reveal_strlit("icon");
    reveal_strlit("base64");
}

/// Case folding keeps an occurrence of a pattern that folding does not
/// change.
proof fn lemma_lower_keeps_occurrence(s: Seq<char>, b: Seq<char>)
    requires
        contains_pat(s, b),
        forall|k: int| 0 <= k < b.len() ==> lower_char(b[k]) == b[k],
    ensures
        contains_pat(spec_lower(s), b),
{
    let i = choose|i: int| match_at(s, b, i);
    assert forall|k: int| 0 <= k < b.len() implies spec_lower(s)[i + k] == b[k] by {
        assert(s[i + k] == b[k]);
        assert(spec_lower(s)[i + k] == lower_char(s[i + k]));
    }
    assert(match_at(spec_lower(s), b, i));
}

/// Validator monotonicity: a blocklisted substring, in the string itself or
/// in its case-folded form, forces rejection, whatever the scheme prefix or
/// extension test would say.
pub proof fn lemma_blocklisted_rejected(s: Seq<char>, b: Seq<char>)
    requires
        is_blocklisted(b),
        contains_pat(s, b) || contains_pat(spec_lower(s), b),
    ensures
        !spec_is_valid_image_url(s),
{
    if contains_pat(s, b) {
        lemma_blocklist_entries_are_lowercase(b);
        lemma_lower_keeps_occurrence(s, b);
    }
}

} // verus!
