//! URL normalizer: decodes escape sequences found in embedded JSON-like
//! fragments and trims surrounding white space.
use vstd::prelude::*;
use crate::text::{
    contains_pat, spec_replace, spec_trim, replace_all, trim_chars, str_to_chars, chars_to_string,
    lemma_replace_identity, lemma_replace_self_free, lemma_replace_keeps_free,
    lemma_trim_keeps_free, lemma_trim_idempotent,
};

verus! {

/// The cleaned form of a raw candidate URL: the escape sequences
/// `=` `&` `/` `?` `:`, the escaped slash `\/` and
/// the entity `&amp;` are each rewritten in one left-to-right pass, in that
/// order, and the result is trimmed of leading and trailing white space.
pub open spec fn spec_clean_url(s: Seq<char>) -> Seq<char> {
    spec_trim(
        spec_replace(
            spec_replace(
                spec_replace(
                    spec_replace(
                        spec_replace(
                            spec_replace(spec_replace(s, "\\u003d"@, "="@), "\\u0026"@, "&"@),
                            "\\u002F"@,
                            "/"@,
                        ),
                        "\\u003F"@,
                        "?"@,
                    ),
                    "\\u003A"@,
                    ":"@,
                ),
                "\\/"@,
                "/"@,
            ),
            "&amp;"@,
            "&"@,
        ),
    )
}

pub fn clean_url(url: &str) -> (out: String)
    ensures
        out@ == spec_clean_url(url@),
{
    let v = str_to_chars(url);
    let v = replace_all(&v, &str_to_chars("\\u003d"), &str_to_chars("="));
    let v = replace_all(&v, &str_to_chars("\\u0026"), &str_to_chars("&"));
    let v = replace_all(&v, &str_to_chars("\\u002F"), &str_to_chars("/"));
    let v = replace_all(&v, &str_to_chars("\\u003F"), &str_to_chars("?"));
    let v = replace_all(&v, &str_to_chars("\\u003A"), &str_to_chars(":"));
    let v = replace_all(&v, &str_to_chars("\\/"), &str_to_chars("/"));
    let v = replace_all(&v, &str_to_chars("&amp;"), &str_to_chars("&"));
    let v = trim_chars(&v);
    chars_to_string(&v)
}

/// A character that some replacement pass writes.
spec fn is_rep_char(c: char) -> bool {
    c == '=' || c == '&' || c == '/' || c == '?' || c == ':'
}

proof fn lemma_rep_literal_chars()
    ensures
        ("="@).len() == 1 && is_rep_char(("="@)[0]),
        ("&"@).len() == 1 && is_rep_char(("&"@)[0]),
        ("/"@).len() == 1 && is_rep_char(("/"@)[0]),
        ("?"@).len() == 1 && is_rep_char(("?"@)[0]),
        (":"@).len() == 1 && is_rep_char((":"@)[0]),
{
    reveal_strlit("=");
    reveal_strlit("&");
    reveal_strlit("/");
    reveal_strlit("?");
    reveal_strlit(":");
}

proof fn lemma_u003d_chars()
    ensures
        ("\\u003d"@).len() == 6,
        forall|c: char| ("\\u003d"@).contains(c) ==> !is_rep_char(c),
{
    reveal_strlit("\\u003d");
    assert forall|c: char| ("\\u003d"@).contains(c) implies !is_rep_char(c) by {
        let i = choose|i: int| 0 <= i < ("\\u003d"@).len() && ("\\u003d"@)[i] == c;
        if i == 0 {
        } else if i == 1 {
        } else if i == 2 {
        } else if i == 3 {
        } else if i == 4 {
        } else {
            assert(i == 5);
        }
    }
}

proof fn lemma_u0026_chars()
    ensures
        ("\\u0026"@).len() == 6,
        forall|c: char| ("\\u0026"@).contains(c) ==> !is_rep_char(c),
{
    reveal_strlit("\\u0026");
    assert forall|c: char| ("\\u0026"@).contains(c) implies !is_rep_char(c) by {
        let i = choose|i: int| 0 <= i < ("\\u0026"@).len() && ("\\u0026"@)[i] == c;
        if i == 0 {
        } else if i == 1 {
        } else if i == 2 {
        } else if i == 3 {
        } else if i == 4 {
        } else {
            assert(i == 5);
        }
    }
}

proof fn lemma_u002f_chars()
    ensures
        ("\\u002F"@).len() == 6,
        forall|c: char| ("\\u002F"@).contains(c) ==> !is_rep_char(c),
{
    reveal_strlit("\\u002F");
    assert forall|c: char| ("\\u002F"@).contains(c) implies !is_rep_char(c) by {
        let i = choose|i: int| 0 <= i < ("\\u002F"@).len() && ("\\u002F"@)[i] == c;
        if i == 0 {
        } else if i == 1 {
        } else if i == 2 {
        } else if i == 3 {
        } else if i == 4 {
        } else {
            assert(i == 5);
        }
    }
}

proof fn lemma_u003f_chars()
    ensures
        ("\\u003F"@).len() == 6,
        forall|c: char| ("\\u003F"@).contains(c) ==> !is_rep_char(c),
{
    reveal_strlit("\\u003F");
    assert forall|c: char| ("\\u003F"@).contains(c) implies !is_rep_char(c) by {
        let i = choose|i: int| 0 <= i < ("\\u003F"@).len() && ("\\u003F"@)[i] == c;
        if i == 0 {
        } else if i == 1 {
        } else if i == 2 {
        } else if i == 3 {
        } else if i == 4 {
        } else {
            assert(i == 5);
        }
    }
}

proof fn lemma_u003a_chars()
    ensures
        ("\\u003A"@).len() == 6,
        forall|c: char| ("\\u003A"@).contains(c) ==> !is_rep_char(c),
{
    reveal_strlit("\\u003A");
    assert forall|c: char| ("\\u003A"@).contains(c) implies !is_rep_char(c) by {
        let i = choose|i: int| 0 <= i < ("\\u003A"@).len() && ("\\u003A"@)[i] == c;
        if i == 0 {
        } else if i == 1 {
        } else if i == 2 {
        } else if i == 3 {
        } else if i == 4 {
        } else {
            assert(i == 5);
        }
    }
}

proof fn lemma_pattern_rep_disjoint(p: Seq<char>)
    requires
        forall|c: char| p.contains(c) ==> !is_rep_char(c),
    ensures
        forall|k: int| 0 <= k < ("="@).len() ==> !p.contains(("="@)[k]),
        forall|k: int| 0 <= k < ("&"@).len() ==> !p.contains(("&"@)[k]),
        forall|k: int| 0 <= k < ("/"@).len() ==> !p.contains(("/"@)[k]),
        forall|k: int| 0 <= k < ("?"@).len() ==> !p.contains(("?"@)[k]),
        forall|k: int| 0 <= k < (":"@).len() ==> !p.contains((":"@)[k]),
{
    lemma_rep_literal_chars();
    assert forall|k: int| 0 <= k < ("="@).len() implies !p.contains(("="@)[k]) by {
        assert(is_rep_char(("="@)[k]));
    }
    assert forall|k: int| 0 <= k < ("&"@).len() implies !p.contains(("&"@)[k]) by {
        assert(is_rep_char(("&"@)[k]));
    }
    assert forall|k: int| 0 <= k < ("/"@).len() implies !p.contains(("/"@)[k]) by {
        assert(is_rep_char(("/"@)[k]));
    }
    assert forall|k: int| 0 <= k < ("?"@).len() implies !p.contains(("?"@)[k]) by {
        assert(is_rep_char(("?"@)[k]));
    }
    assert forall|k: int| 0 <= k < (":"@).len() implies !p.contains((":"@)[k]) by {
        assert(is_rep_char((":"@)[k]));
    }
}

/// Idempotence of normalization: cleaning an already-cleaned string changes
/// nothing, as long as the cleaned string holds no leftover `\/` or `&amp;`.
/// (Those two passes can leave a fresh occurrence of their own pattern
/// behind, assembled out of a replacement seam, which a second pass would
/// then rewrite.)
pub proof fn lemma_clean_url_idempotent(s: Seq<char>)
    requires
        !contains_pat(spec_clean_url(s), "\\/"@),
        !contains_pat(spec_clean_url(s), "&amp;"@),
    ensures
        spec_clean_url(spec_clean_url(s)) == spec_clean_url(s),
{
    reveal_strlit("\\/");
    reveal_strlit("&amp;");
    let p1 = "\\u003d"@;
    let r1 = "="@;
    let p2 = "\\u0026"@;
    let r2 = "&"@;
    let p3 = "\\u002F"@;
    let r3 = "/"@;
    let p4 = "\\u003F"@;
    let r4 = "?"@;
    let p5 = "\\u003A"@;
    let r5 = ":"@;
    let p6 = "\\/"@;
    let r6 = "/"@;
    let p7 = "&amp;"@;
    let r7 = "&"@;
    let w1 = spec_replace(s, p1, r1);
    let w2 = spec_replace(w1, p2, r2);
    let w3 = spec_replace(w2, p3, r3);
    let w4 = spec_replace(w3, p4, r4);
    let w5 = spec_replace(w4, p5, r5);
    let w6 = spec_replace(w5, p6, r6);
    let w7 = spec_replace(w6, p7, r7);
    let u = spec_trim(w7);
    assert(spec_clean_url(s) == u);
    lemma_rep_literal_chars();
    lemma_u003d_chars();
    lemma_u0026_chars();
    lemma_u002f_chars();
    lemma_u003f_chars();
    lemma_u003a_chars();
    lemma_pattern_rep_disjoint(p1);
    lemma_pattern_rep_disjoint(p2);
    lemma_pattern_rep_disjoint(p3);
    lemma_pattern_rep_disjoint(p4);
    lemma_pattern_rep_disjoint(p5);
    // The cleaned string is free of each escape pattern: the pass that
    // rewrites it removes every occurrence (its replacement shares no
    // character with it), and no later pass can assemble a new one.
    lemma_replace_self_free(s, p1, r1);
    lemma_replace_keeps_free(w1, p2, r2, p1);
    lemma_replace_keeps_free(w2, p3, r3, p1);
    lemma_replace_keeps_free(w3, p4, r4, p1);
    lemma_replace_keeps_free(w4, p5, r5, p1);
    lemma_replace_keeps_free(w5, p6, r6, p1);
    lemma_replace_keeps_free(w6, p7, r7, p1);
    lemma_trim_keeps_free(w7, p1);
    lemma_replace_self_free(w1, p2, r2);
    lemma_replace_keeps_free(w2, p3, r3, p2);
    lemma_replace_keeps_free(w3, p4, r4, p2);
    lemma_replace_keeps_free(w4, p5, r5, p2);
    lemma_replace_keeps_free(w5, p6, r6, p2);
    lemma_replace_keeps_free(w6, p7, r7, p2);
    lemma_trim_keeps_free(w7, p2);
    lemma_replace_self_free(w2, p3, r3);
    lemma_replace_keeps_free(w3, p4, r4, p3);
    lemma_replace_keeps_free(w4, p5, r5, p3);
    lemma_replace_keeps_free(w5, p6, r6, p3);
    lemma_replace_keeps_free(w6, p7, r7, p3);
    lemma_trim_keeps_free(w7, p3);
    lemma_replace_self_free(w3, p4, r4);
    lemma_replace_keeps_free(w4, p5, r5, p4);
    lemma_replace_keeps_free(w5, p6, r6, p4);
    lemma_replace_keeps_free(w6, p7, r7, p4);
    lemma_trim_keeps_free(w7, p4);
    lemma_replace_self_free(w4, p5, r5);
    lemma_replace_keeps_free(w5, p6, r6, p5);
    lemma_replace_keeps_free(w6, p7, r7, p5);
    lemma_trim_keeps_free(w7, p5);
    // Cleaning the cleaned string: every pass leaves it unchanged, and the
    // final trim of an already-trimmed string is the identity.
    lemma_replace_identity(u, p1, r1);
    lemma_replace_identity(u, p2, r2);
    lemma_replace_identity(u, p3, r3);
    lemma_replace_identity(u, p4, r4);
    lemma_replace_identity(u, p5, r5);
    lemma_replace_identity(u, p6, r6);
    lemma_replace_identity(u, p7, r7);
    lemma_trim_idempotent(w7);
}

} // verus!
