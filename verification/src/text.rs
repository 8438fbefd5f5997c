//! Character-sequence primitives: substring occurrence, single-pass
//! replacement, whitespace trimming and ASCII case folding.
//!
//! All executable functions work on `Vec<char>` and are specified against
//! `Seq<char>` models; conversions from and to `String` sit at the edges.
use vstd::prelude::*;

verus! {

/// True when `p` occurs in `s` starting at index `i`.
pub open spec fn match_at(s: Seq<char>, p: Seq<char>, i: int) -> bool {
    &&& 0 <= i
    &&& i + p.len() <= s.len()
    &&& forall|k: int| 0 <= k < p.len() ==> s[i + k] == p[k]
}

/// True when `p` occurs somewhere in `s`.
pub open spec fn contains_pat(s: Seq<char>, p: Seq<char>) -> bool {
    exists|i: int| match_at(s, p, i)
}

/// Occurrences shift across `skip`.
pub proof fn lemma_match_at_skip(s: Seq<char>, p: Seq<char>, j: int, i: int)
    requires
        0 <= j <= s.len(),
        0 <= i,
    ensures
        match_at(s.skip(j), p, i) == match_at(s, p, j + i),
{
    if match_at(s.skip(j), p, i) {
        assert forall|k: int| 0 <= k < p.len() implies s[j + i + k] == p[k] by {
            assert(s.skip(j)[i + k] == p[k]);
        }
    }
    if match_at(s, p, j + i) {
        assert forall|k: int| 0 <= k < p.len() implies s.skip(j)[i + k] == p[k] by {
            assert(s[j + i + k] == p[k]);
        }
    }
}

pub fn is_match_at(s: &Vec<char>, p: &Vec<char>, i: usize) -> (b: bool)
    requires
        i <= s@.len(),
    ensures
        b == match_at(s@, p@, i as int),
{
    if s.len() - i < p.len() {
        return false;
    }
    let n: usize = s.len();
    let mut k: usize = 0;
    while k < p.len()
        invariant
            n == s@.len(),
            i + p@.len() <= s@.len(),
            k <= p@.len(),
            forall|j: int| 0 <= j < k ==> s@[i + j] == p@[j],
        decreases p@.len() - k,
    {
        assert(i + k < s@.len());
        if s[i + k] != p[k] {
            return false;
        }
        k = k + 1;
    }
    true
}

pub fn contains_sub(s: &Vec<char>, p: &Vec<char>) -> (b: bool)
    ensures
        b == contains_pat(s@, p@),
{
    if p.len() == 0 {
        assert(match_at(s@, p@, 0));
        return true;
    }
    if p.len() > s.len() {
        assert forall|i: int| !match_at(s@, p@, i) by {}
        return false;
    }
    let n: usize = s.len();
    let bound: usize = s.len() - p.len();
    let mut i: usize = 0;
    while i <= bound
        invariant
            n == s@.len(),
            1 <= p@.len() <= s@.len(),
            bound == s@.len() - p@.len(),
            i <= bound + 1,
            forall|j: int| 0 <= j < i ==> !match_at(s@, p@, j),
        decreases bound + 1 - i,
    {
        if is_match_at(s, p, i) {
            return true;
        }
        i = i + 1;
    }
    assert forall|j: int| !match_at(s@, p@, j) by {
        if 0 <= j < i {
            assert(!match_at(s@, p@, j));
        }
    }
    false
}

/// `s` with every non-overlapping occurrence of `p` replaced by `r`,
/// scanning once from the left; the replacement text is not rescanned.
/// An empty pattern leaves `s` unchanged.
pub open spec fn spec_replace(s: Seq<char>, p: Seq<char>, r: Seq<char>) -> Seq<char>
    decreases s.len(),
{
    if p.len() == 0 || s.len() < p.len() {
        s
    } else if match_at(s, p, 0) {
        r + spec_replace(s.skip(p.len() as int), p, r)
    } else {
        seq![s[0]] + spec_replace(s.skip(1), p, r)
    }
}

pub fn append_chars(out: &mut Vec<char>, add: &Vec<char>)
    ensures
        final(out)@ == old(out)@ + add@,
{
    let mut j: usize = 0;
    while j < add.len()
        invariant
            j <= add@.len(),
            out@ == old(out)@ + add@.subrange(0, j as int),
        decreases add@.len() - j,
    {
        proof {
            assert(old(out)@ + add@.subrange(0, j as int) + seq![add@[j as int]] =~= old(out)@
                + add@.subrange(0, j + 1 as int));
        }
        out.push(add[j]);
        j = j + 1;
    }
    proof {
        assert(out@ =~= old(out)@ + add@);
    }
}

pub fn replace_all(s: &Vec<char>, p: &Vec<char>, r: &Vec<char>) -> (out: Vec<char>)
    ensures
        out@ == spec_replace(s@, p@, r@),
{
    if p.len() == 0 {
        let mut out: Vec<char> = Vec::new();
        append_chars(&mut out, s);
        proof {
            assert(out@ =~= s@);
        }
        return out;
    }
    let mut out: Vec<char> = Vec::new();
    let mut i: usize = 0;
    proof {
        assert(s@.skip(0) =~= s@);
        assert(Seq::<char>::empty() + spec_replace(s@, p@, r@) =~= spec_replace(s@, p@, r@));
    }
    while i < s.len()
        invariant
            p@.len() > 0,
            i <= s@.len(),
            spec_replace(s@, p@, r@) == out@ + spec_replace(s@.skip(i as int), p@, r@),
        decreases s@.len() - i,
    {
        let ghost pre = out@;
        if is_match_at(s, p, i) {
            proof {
                lemma_match_at_skip(s@, p@, i as int, 0);
                assert(s@.skip(i as int).skip(p@.len() as int) =~= s@.skip(i + p@.len()));
                assert(spec_replace(s@.skip(i as int), p@, r@) == r@ + spec_replace(
                    s@.skip(i + p@.len()),
                    p@,
                    r@,
                ));
            }
            append_chars(&mut out, r);
            i = i + p.len();
            proof {
                assert(pre + (r@ + spec_replace(s@.skip(i as int), p@, r@)) =~= (pre + r@)
                    + spec_replace(s@.skip(i as int), p@, r@));
            }
        } else {
            proof {
                assert(s@.skip(i as int).skip(1) =~= s@.skip(i + 1));
                assert(seq![s@[i as int]] + s@.skip(i + 1) =~= s@.skip(i as int));
                if s@.len() - i >= p@.len() {
                    lemma_match_at_skip(s@, p@, i as int, 0);
                    assert(!match_at(s@.skip(i as int), p@, 0));
                    assert(spec_replace(s@.skip(i as int), p@, r@) == seq![s@[i as int]]
                        + spec_replace(s@.skip(i + 1), p@, r@));
                } else {
                    assert(spec_replace(s@.skip(i as int), p@, r@) == s@.skip(i as int));
                    assert(spec_replace(s@.skip(i + 1), p@, r@) == s@.skip(i + 1));
                }
                assert(pre + (seq![s@[i as int]] + spec_replace(s@.skip(i + 1), p@, r@)) =~= (pre
                    + seq![s@[i as int]]) + spec_replace(s@.skip(i + 1), p@, r@));
            }
            out.push(s[i]);
            i = i + 1;
            proof {
                assert(out@ =~= pre + seq![s@[i - 1]]);
            }
        }
    }
    proof {
        assert(s@.skip(i as int) =~= Seq::<char>::empty());
        assert(spec_replace(Seq::<char>::empty(), p@, r@) == Seq::<char>::empty());
        assert(out@ + Seq::<char>::empty() =~= out@);
    }
    out
}

/// Occurrences in the right part of a concatenation shift by the left
/// part's length.
pub proof fn lemma_match_at_concat_right(a: Seq<char>, b: Seq<char>, p: Seq<char>, i: int)
    requires
        0 <= i,
    ensures
        match_at(a + b, p, a.len() + i) == match_at(b, p, i),
{
    if match_at(a + b, p, a.len() + i) {
        assert forall|k: int| 0 <= k < p.len() implies b[i + k] == p[k] by {
            assert((a + b)[a.len() + i + k] == p[k]);
        }
    }
    if match_at(b, p, i) {
        assert forall|k: int| 0 <= k < p.len() implies (a + b)[a.len() + i + k] == p[k] by {
            assert(b[i + k] == p[k]);
        }
    }
}

/// A position covered by an occurrence holds a character of the pattern.
pub proof fn lemma_match_covers(s: Seq<char>, p: Seq<char>, i: int, j: int)
    requires
        match_at(s, p, i),
        i <= j < i + p.len(),
    ensures
        p.contains(s[j]),
{
    assert(s[j] == p[j - i]);
}

/// A pass over a string free of the pattern leaves it unchanged.
pub proof fn lemma_replace_identity(s: Seq<char>, p: Seq<char>, r: Seq<char>)
    requires
        p.len() > 0,
        !contains_pat(s, p),
    ensures
        spec_replace(s, p, r) == s,
    decreases s.len(),
{
    if s.len() >= p.len() {
        assert(!match_at(s, p, 0));
        assert forall|i: int| !match_at(s.skip(1), p, i) by {
            if 0 <= i {
                lemma_match_at_skip(s, p, 1, i);
            }
        }
        lemma_replace_identity(s.skip(1), p, r);
        assert(seq![s[0]] + s.skip(1) =~= s);
    }
}

proof fn lemma_replace_free_aux(
    x: Seq<char>,
    s: Seq<char>,
    q: Seq<char>,
    r: Seq<char>,
    p: Seq<char>,
)
    requires
        p.len() > 0,
        q.len() > 0,
        r.len() > 0,
        forall|k: int| 0 <= k < r.len() ==> !p.contains(r[k]),
        forall|i: int| 0 <= i < x.len() ==> !match_at(x + s, p, i),
        p == q || !contains_pat(s, p),
    ensures
        !contains_pat(x + spec_replace(s, q, r), p),
    decreases s.len(),
{
    if s.len() < q.len() {
        assert(spec_replace(s, q, r) == s);
        assert forall|i: int| !match_at(x + s, p, i) by {
            if x.len() <= i {
                if p == q {
                    assert(i + p.len() > x.len() + s.len());
                } else {
                    lemma_match_at_concat_right(x, s, p, i - x.len());
                    assert(!match_at(s, p, i - x.len()));
                }
            }
        }
    } else if match_at(s, q, 0) {
        let rest = s.skip(q.len() as int);
        let x2 = x + r;
        assert forall|i: int| 0 <= i < x2.len() implies !match_at(x2 + rest, p, i) by {
            if match_at(x2 + rest, p, i) {
                if i + p.len() <= x.len() {
                    assert forall|k: int| 0 <= k < p.len() implies (x + s)[i + k] == p[k] by {
                        assert((x2 + rest)[i + k] == p[k]);
                        assert((x2 + rest)[i + k] == x[i + k]);
                        assert((x + s)[i + k] == x[i + k]);
                    }
                    assert(match_at(x + s, p, i));
                } else if i < x.len() {
                    lemma_match_covers(x2 + rest, p, i, x.len() as int);
                    assert((x2 + rest)[x.len() as int] == r[0]);
                } else {
                    lemma_match_covers(x2 + rest, p, i, i);
                    assert((x2 + rest)[i] == r[i - x.len()]);
                }
            }
        }
        if p != q {
            assert forall|i: int| !match_at(rest, p, i) by {
                if 0 <= i {
                    lemma_match_at_skip(s, p, q.len() as int, i);
                }
            }
        }
        lemma_replace_free_aux(x2, rest, q, r, p);
        assert(x + spec_replace(s, q, r) =~= x2 + spec_replace(rest, q, r));
    } else {
        let x2 = x + seq![s[0]];
        let s2 = s.skip(1);
        assert(x2 + s2 =~= x + s);
        assert forall|i: int| 0 <= i < x2.len() implies !match_at(x2 + s2, p, i) by {
            if i == x.len() {
                lemma_match_at_concat_right(x, s, p, 0);
                if p != q {
                    assert(!match_at(s, p, 0));
                }
            }
        }
        if p != q {
            assert forall|i: int| !match_at(s2, p, i) by {
                if 0 <= i {
                    lemma_match_at_skip(s, p, 1, i);
                }
            }
        }
        lemma_replace_free_aux(x2, s2, q, r, p);
        assert(x + spec_replace(s, q, r) =~= x2 + spec_replace(s2, q, r));
    }
}

/// After one pass that replaces `p` by `r`, no occurrence of `p` remains, as
/// long as the replacement text shares no character with the pattern.
pub proof fn lemma_replace_self_free(s: Seq<char>, p: Seq<char>, r: Seq<char>)
    requires
        p.len() > 0,
        r.len() > 0,
        forall|k: int| 0 <= k < r.len() ==> !p.contains(r[k]),
    ensures
        !contains_pat(spec_replace(s, p, r), p),
{
    lemma_replace_free_aux(Seq::empty(), s, p, r, p);
    assert(Seq::<char>::empty() + spec_replace(s, p, r) =~= spec_replace(s, p, r));
}

/// A pass that replaces an unrelated pattern cannot create an occurrence of
/// `p`, as long as the replacement text shares no character with `p`.
pub proof fn lemma_replace_keeps_free(s: Seq<char>, q: Seq<char>, r: Seq<char>, p: Seq<char>)
    requires
        p.len() > 0,
        q.len() > 0,
        r.len() > 0,
        !contains_pat(s, p),
        forall|k: int| 0 <= k < r.len() ==> !p.contains(r[k]),
    ensures
        !contains_pat(spec_replace(s, q, r), p),
{
    lemma_replace_free_aux(Seq::empty(), s, q, r, p);
    assert(Seq::<char>::empty() + spec_replace(s, q, r) =~= spec_replace(s, q, r));
}

/// The white-space characters that `char::is_whitespace` recognizes.
pub open spec fn is_space_char(c: char) -> bool {
    ||| c == ' '
    ||| c == '\t'
    ||| c == '\n'
    ||| c == '\r'
    ||| c == '\u{000B}'
    ||| c == '\u{000C}'
    ||| c == '\u{0085}'
    ||| c == '\u{00A0}'
    ||| c == '\u{1680}'
    ||| ('\u{2000}' <= c && c <= '\u{200A}')
    ||| c == '\u{2028}'
    ||| c == '\u{2029}'
    ||| c == '\u{202F}'
    ||| c == '\u{205F}'
    ||| c == '\u{3000}'
}

pub fn is_space(c: char) -> (b: bool)
    ensures
        b == is_space_char(c),
{
    c == ' ' || c == '\t' || c == '\n' || c == '\r' || c == '\u{000B}' || c == '\u{000C}' || c
        == '\u{0085}' || c == '\u{00A0}' || c == '\u{1680}' || ('\u{2000}' <= c && c <= '\u{200A}')
        || c == '\u{2028}' || c == '\u{2029}' || c == '\u{202F}' || c == '\u{205F}' || c
        == '\u{3000}'
}

/// `s` without leading and trailing white space.
pub open spec fn spec_trim(s: Seq<char>) -> Seq<char>
    decreases s.len(),
{
    if s.len() == 0 {
        s
    } else if is_space_char(s[0]) {
        spec_trim(s.skip(1))
    } else if is_space_char(s[s.len() - 1]) {
        spec_trim(s.take(s.len() - 1))
    } else {
        s
    }
}

/// Trimming removes nothing inside: a string free of a pattern stays free
/// of it after trimming.
pub proof fn lemma_trim_keeps_free(s: Seq<char>, p: Seq<char>)
    requires
        !contains_pat(s, p),
    ensures
        !contains_pat(spec_trim(s), p),
    decreases s.len(),
{
    if s.len() == 0 {
    } else if is_space_char(s[0]) {
        assert forall|i: int| !match_at(s.skip(1), p, i) by {
            if 0 <= i {
                lemma_match_at_skip(s, p, 1, i);
            }
        }
        lemma_trim_keeps_free(s.skip(1), p);
    } else if is_space_char(s[s.len() - 1]) {
        let t = s.take(s.len() - 1);
        assert forall|i: int| !match_at(t, p, i) by {
            if match_at(t, p, i) {
                assert forall|k: int| 0 <= k < p.len() implies s[i + k] == p[k] by {
                    assert(t[i + k] == p[k]);
                }
                assert(match_at(s, p, i));
            }
        }
        lemma_trim_keeps_free(t, p);
    }
}

/// The trimmed string carries no white space at either end.
pub proof fn lemma_trim_trimmed(s: Seq<char>)
    ensures
        spec_trim(s).len() > 0 ==> !is_space_char(spec_trim(s)[0]) && !is_space_char(
            spec_trim(s)[spec_trim(s).len() - 1],
        ),
    decreases s.len(),
{
    if s.len() == 0 {
    } else if is_space_char(s[0]) {
        lemma_trim_trimmed(s.skip(1));
    } else if is_space_char(s[s.len() - 1]) {
        lemma_trim_trimmed(s.take(s.len() - 1));
    }
}

/// Trimming is idempotent.
pub proof fn lemma_trim_idempotent(s: Seq<char>)
    ensures
        spec_trim(spec_trim(s)) == spec_trim(s),
{
    lemma_trim_trimmed(s);
}

pub fn trim_chars(s: &Vec<char>) -> (out: Vec<char>)
    ensures
        out@ == spec_trim(s@),
{
    let mut a: usize = 0;
    let mut b: usize = s.len();
    proof {
        assert(s@.subrange(0, s@.len() as int) =~= s@);
    }
    while a < b && is_space(s[a])
        invariant
            a <= b <= s@.len(),
            spec_trim(s@.subrange(a as int, b as int)) == spec_trim(s@),
        decreases b - a,
    {
        proof {
            assert(s@.subrange(a as int, b as int).skip(1) =~= s@.subrange(a + 1, b as int));
        }
        a = a + 1;
    }
    while a < b && is_space(s[b - 1])
        invariant
            a <= b <= s@.len(),
            spec_trim(s@.subrange(a as int, b as int)) == spec_trim(s@),
            a < b ==> !is_space_char(s@[a as int]),
        decreases b - a,
    {
        proof {
            let sub = s@.subrange(a as int, b as int);
            assert(sub.take(sub.len() - 1) =~= s@.subrange(a as int, b - 1));
        }
        b = b - 1;
    }
    let mut out: Vec<char> = Vec::new();
    let mut j: usize = a;
    while j < b
        invariant
            a <= j <= b <= s@.len(),
            out@ == s@.subrange(a as int, j as int),
        decreases b - j,
    {
        proof {
            assert(s@.subrange(a as int, j as int) + seq![s@[j as int]] =~= s@.subrange(
                a as int,
                j + 1,
            ));
        }
        out.push(s[j]);
        j = j + 1;
    }
    proof {
        let sub = s@.subrange(a as int, b as int);
        assert(out@ =~= sub);
        assert(spec_trim(sub) == sub);
    }
    out
}

/// ASCII case folding of one character: `'A'..'Z'` map to `'a'..'z'`,
/// every other character is unchanged.
pub open spec fn lower_char(c: char) -> char {
    if 'A' <= c && c <= 'Z' {
        ((c as int) + 32) as char
    } else {
        c
    }
}

/// ASCII case folding of a whole sequence.
pub open spec fn spec_lower(s: Seq<char>) -> Seq<char> {
    s.map_values(|c: char| lower_char(c))
}

pub fn lower_char_exec(c: char) -> (r: char)
    ensures
        r == lower_char(c),
{
    let u = c as u32;
    if 65 <= u && u <= 90 {
        ((u + 32) as u8) as char
    } else {
        c
    }
}

pub fn to_lower_chars(s: &Vec<char>) -> (out: Vec<char>)
    ensures
        out@ == spec_lower(s@),
{
    let mut out: Vec<char> = Vec::new();
    let mut i: usize = 0;
    while i < s.len()
        invariant
            i <= s@.len(),
            out@.len() == i,
            forall|j: int| 0 <= j < i ==> out@[j] == lower_char(s@[j]),
        decreases s@.len() - i,
    {
        let c = lower_char_exec(s[i]);
        out.push(c);
        i = i + 1;
    }
    proof {
        assert(out@ =~= spec_lower(s@));
    }
    out
}

pub fn str_to_chars(s: &str) -> (v: Vec<char>)
    ensures
        v@ == s@,
{
    let n = s.unicode_len();
    let mut v: Vec<char> = Vec::new();
    let mut i: usize = 0;
    while i < n
        invariant
            n == s@.len(),
            i <= n,
            v@ == s@.subrange(0, i as int),
        decreases n - i,
    {
        proof {
            assert(s@.subrange(0, i as int) + seq![s@[i as int]] =~= s@.subrange(0, i + 1));
        }
        let c = s.get_char(i);
        v.push(c);
        i = i + 1;
    }
    proof {
        assert(v@ =~= s@);
    }
    v
}

/// Relies on `String: FromIterator<char>`: collecting an in-order character
/// iterator yields the string whose characters are exactly those items.
#[verifier::external_body]
pub fn chars_to_string(v: &Vec<char>) -> (s: String)
    ensures
        s@ == v@,
{
    v.iter().collect()
}

} // verus!
