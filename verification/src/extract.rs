//! HTML extraction engine: scans a document for embedded image-URL literals
//! of the structural shape `["<url>",W,H]` (a double-quoted `https://` URL
//! carrying an image extension, followed by two unsigned integers and a
//! closing bracket), normalizes and validates each capture, deduplicates by
//! normalized URL and produces an ordered sequence of results.
use vstd::prelude::*;
use crate::domain::{spec_extract_domain, extract_domain};
use crate::normalize::{spec_clean_url, clean_url};
use crate::text::{match_at, is_match_at, str_to_chars, chars_to_string};
use crate::validate::{spec_is_valid_image_url, is_image_extension, is_valid_image_url};

verus! {

/// One extracted image: the normalized, validated URL and the registrable
/// host it points into (or the sentinel `unknown`).
#[derive(Debug, Clone)]
pub struct ImageResult {
    pub url: String,
    pub source_site: String,
}

pub open spec fn is_ascii_digit(c: char) -> bool {
    '0' <= c && c <= '9'
}

/// Index of the first occurrence of `c` in `s` at or after `i`; `s.len()`
/// when there is none.
pub open spec fn find_char(s: Seq<char>, c: char, i: int) -> int
    decreases s.len() - i,
{
    if i < 0 || i >= s.len() {
        s.len() as int
    } else if s[i] == c {
        i
    } else {
        find_char(s, c, i + 1)
    }
}

/// Index of the first position at or after `i` that does not hold an ASCII
/// digit; `s.len()` when digits run to the end.
pub open spec fn digits_end(s: Seq<char>, i: int) -> int
    decreases s.len() - i,
{
    if i < 0 || i >= s.len() {
        s.len() as int
    } else if is_ascii_digit(s[i]) {
        digits_end(s, i + 1)
    } else {
        i
    }
}

pub proof fn lemma_find_char_range(s: Seq<char>, c: char, i: int)
    requires
        0 <= i <= s.len(),
    ensures
        i <= find_char(s, c, i) <= s.len(),
        find_char(s, c, i) < s.len() ==> s[find_char(s, c, i)] == c,
    decreases s.len() - i,
{
    if i < s.len() && s[i] != c {
        lemma_find_char_range(s, c, i + 1);
    }
}

pub proof fn lemma_digits_end_range(s: Seq<char>, i: int)
    requires
        0 <= i <= s.len(),
    ensures
        i <= digits_end(s, i) <= s.len(),
    decreases s.len() - i,
{
    if i < s.len() && is_ascii_digit(s[i]) {
        lemma_digits_end_range(s, i + 1);
    }
}

/// A recognized image extension sits at `j` in `u` and is either at the very
/// end or followed by a `?` that opens a query string.
pub open spec fn ext_match(u: Seq<char>, e: Seq<char>, j: int) -> bool {
    &&& match_at(u, e, j)
    &&& (j + e.len() == u.len() || (j + e.len() < u.len() && u[j + e.len()] == '?'))
}

/// The quoted content of a structural match: it begins with `https://` and,
/// past that prefix, carries a recognized image extension that either ends
/// the string or is followed by a query string.
pub open spec fn url_content_ok(u: Seq<char>) -> bool {
    &&& match_at(u, "https://"@, 0)
    &&& exists|e: Seq<char>, j: int| is_image_extension(e) && 8 <= j && ext_match(u, e, j)
}

/// A structural match starts at `i`: `["`, then the quoted URL content up to
/// the next `"`, then `,`, an unsigned integer, `,`, an unsigned integer and
/// `]`.
pub open spec fn match_here(s: Seq<char>, i: int) -> bool {
    let e = find_char(s, '"', i + 2);
    let d1 = digits_end(s, e + 2);
    let d2 = digits_end(s, d1 + 1);
    &&& 0 <= i
    &&& i + 2 <= s.len()
    &&& s[i] == '['
    &&& s[i + 1] == '"'
    &&& e < s.len()
    &&& url_content_ok(s.subrange(i + 2, e))
    &&& e + 1 < s.len()
    &&& s[e + 1] == ','
    &&& d1 > e + 2
    &&& d1 < s.len()
    &&& s[d1] == ','
    &&& d2 > d1 + 1
    &&& d2 < s.len()
    &&& s[d2] == ']'
}

/// The raw URL capture of the structural match at `i`.
pub open spec fn url_at(s: Seq<char>, i: int) -> Seq<char> {
    s.subrange(i + 2, find_char(s, '"', i + 2))
}

/// The first position after the structural match at `i`.
pub open spec fn match_end(s: Seq<char>, i: int) -> int {
    digits_end(s, digits_end(s, find_char(s, '"', i + 2) + 2) + 1) + 1
}

pub proof fn lemma_match_end_bounds(s: Seq<char>, i: int)
    requires
        match_here(s, i),
    ensures
        i + 7 <= match_end(s, i) <= s.len(),
{
    lemma_find_char_range(s, '"', i + 2);
    let e = find_char(s, '"', i + 2);
    lemma_digits_end_range(s, e + 2);
    let d1 = digits_end(s, e + 2);
    lemma_digits_end_range(s, d1 + 1);
}

/// The raw captures of all non-overlapping structural matches at or after
/// `i`, in document order; the scan resumes right after each match.
pub open spec fn scan_from(s: Seq<char>, i: int) -> Seq<Seq<char>>
    decreases s.len() - i when 0 <= i via scan_from_decreases
{
    if i >= s.len() {
        Seq::empty()
    } else if match_here(s, i) {
        seq![url_at(s, i)] + scan_from(s, match_end(s, i))
    } else {
        scan_from(s, i + 1)
    }
}

#[via_fn]
proof fn scan_from_decreases(s: Seq<char>, i: int) {
    if 0 <= i < s.len() && match_here(s, i) {
        lemma_match_end_bounds(s, i);
    }
}

/// One pipeline step: normalize the raw capture, keep it when the validator
/// accepts it and an equal URL is not already present.
pub open spec fn accept_step(acc: Seq<Seq<char>>, raw: Seq<char>) -> Seq<Seq<char>> {
    let u = spec_clean_url(raw);
    if spec_is_valid_image_url(u) && !acc.contains(u) {
        acc.push(u)
    } else {
        acc
    }
}

pub open spec fn accept_all(acc: Seq<Seq<char>>, raws: Seq<Seq<char>>) -> Seq<Seq<char>>
    decreases raws.len(),
{
    if raws.len() == 0 {
        acc
    } else {
        accept_all(accept_step(acc, raws[0]), raws.skip(1))
    }
}

/// The ordered, deduplicated sequence of normalized, accepted image URLs
/// that a document yields, before any truncation.
pub open spec fn spec_image_urls(html: Seq<char>) -> Seq<Seq<char>> {
    accept_all(Seq::empty(), scan_from(html, 0))
}

/// The URL views of a result sequence.
pub open spec fn urls_of(rs: Seq<ImageResult>) -> Seq<Seq<char>> {
    rs.map_values(|r: ImageResult| r.url@)
}

pub open spec fn all_distinct(us: Seq<Seq<char>>) -> bool {
    forall|k1: int, k2: int| 0 <= k1 < k2 < us.len() ==> us[k1] != us[k2]
}

proof fn lemma_accept_all_distinct(acc: Seq<Seq<char>>, raws: Seq<Seq<char>>)
    requires
        all_distinct(acc),
    ensures
        all_distinct(accept_all(acc, raws)),
    decreases raws.len(),
{
    if raws.len() > 0 {
        let step = accept_step(acc, raws[0]);
        assert(all_distinct(step)) by {
            let u = spec_clean_url(raws[0]);
            if spec_is_valid_image_url(u) && !acc.contains(u) {
                assert forall|k1: int, k2: int|
                    0 <= k1 < k2 < step.len() implies step[k1] != step[k2] by {
                    if k2 == acc.len() {
                        assert(acc[k1] != u);
                    }
                }
            }
        }
        lemma_accept_all_distinct(step, raws.skip(1));
    }
}

/// Dedup invariant: the URL sequence a document yields holds no two equal
/// entries.
pub proof fn lemma_image_urls_distinct(html: Seq<char>)
    ensures
        all_distinct(spec_image_urls(html)),
{
    lemma_accept_all_distinct(Seq::empty(), scan_from(html, 0));
}

proof fn lemma_accept_all_valid(acc: Seq<Seq<char>>, raws: Seq<Seq<char>>)
    requires
        forall|k: int| 0 <= k < acc.len() ==> spec_is_valid_image_url(acc[k]),
    ensures
        forall|k: int|
            0 <= k < accept_all(acc, raws).len() ==> spec_is_valid_image_url(
                accept_all(acc, raws)[k],
            ),
    decreases raws.len(),
{
    if raws.len() > 0 {
        let step = accept_step(acc, raws[0]);
        assert(forall|k: int| 0 <= k < step.len() ==> spec_is_valid_image_url(step[k]));
        lemma_accept_all_valid(step, raws.skip(1));
        assert(accept_all(acc, raws) == accept_all(step, raws.skip(1)));
    }
}

/// Every URL a document yields passes the validator.
pub proof fn lemma_image_urls_valid(html: Seq<char>)
    ensures
        forall|k: int|
            0 <= k < spec_image_urls(html).len() ==> spec_is_valid_image_url(
                spec_image_urls(html)[k],
            ),
{
    lemma_accept_all_valid(Seq::empty(), scan_from(html, 0));
}

fn find_char_from(s: &Vec<char>, c: char, from: usize) -> (r: usize)
    requires
        from <= s@.len(),
    ensures
        r as int == find_char(s@, c, from as int),
        from <= r <= s@.len(),
        r < s@.len() ==> s@[r as int] == c,
{
    let n: usize = s.len();
    let mut j: usize = from;
    while j < n && s[j] != c
        invariant
            n == s@.len(),
            from <= j <= n,
            find_char(s@, c, from as int) == find_char(s@, c, j as int),
        decreases n - j,
    {
        j = j + 1;
    }
    j
}

fn digits_end_from(s: &Vec<char>, from: usize) -> (r: usize)
    requires
        from <= s@.len(),
    ensures
        r as int == digits_end(s@, from as int),
        from <= r <= s@.len(),
{
    let n: usize = s.len();
    let mut j: usize = from;
    while j < n && '0' <= s[j] && s[j] <= '9'
        invariant
            n == s@.len(),
            from <= j <= n,
            digits_end(s@, from as int) == digits_end(s@, j as int),
        decreases n - j,
    {
        j = j + 1;
    }
    j
}

fn subrange_vec(s: &Vec<char>, a: usize, b: usize) -> (v: Vec<char>)
    requires
        a <= b <= s@.len(),
    ensures
        v@ == s@.subrange(a as int, b as int),
{
    let mut v: Vec<char> = Vec::new();
    let mut j: usize = a;
    while j < b
        invariant
            a <= j <= b <= s@.len(),
            v@ == s@.subrange(a as int, j as int),
        decreases b - j,
    {
        proof {
            assert(s@.subrange(a as int, j as int) + seq![s@[j as int]] =~= s@.subrange(
                a as int,
                j + 1,
            ));
        }
        v.push(s[j]);
        j = j + 1;
    }
    proof {
        assert(v@ =~= s@.subrange(a as int, b as int));
    }
    v
}

fn ext_match_exec(u: &Vec<char>, e: &Vec<char>, j: usize) -> (b: bool)
    requires
        j <= u@.len(),
    ensures
        b == ext_match(u@, e@, j as int),
{
    let n: usize = u.len();
    if !is_match_at(u, e, j) {
        return false;
    }
    assert(j + e@.len() <= n);
    let end: usize = j + e.len();
    if end == u.len() {
        true
    } else {
        u[end] == '?'
    }
}

fn check_url_content(u: &Vec<char>) -> (b: bool)
    ensures
        b == url_content_ok(u@),
{
    let https = str_to_chars("https://");
    if !is_match_at(u, &https, 0) {
        return false;
    }
    let e1 = str_to_chars(".jpg");
    let e2 = str_to_chars(".jpeg");
    let e3 = str_to_chars(".png");
    let e4 = str_to_chars(".gif");
    let e5 = str_to_chars(".webp");
    let n: usize = u.len();
    let mut j: usize = 8;
    while j < n
        invariant
            n == u@.len(),
            8 <= j <= n || (j == 8 && n < 8),
            e1@ == ".jpg"@,
            e2@ == ".jpeg"@,
            e3@ == ".png"@,
            e4@ == ".gif"@,
            e5@ == ".webp"@,
            match_at(u@, "https://"@, 0),
            forall|e: Seq<char>, jj: int|
                is_image_extension(e) && 8 <= jj < j ==> !ext_match(u@, e, jj),
        decreases n - j,
    {
        let m1 = ext_match_exec(u, &e1, j);
        let m2 = ext_match_exec(u, &e2, j);
        let m3 = ext_match_exec(u, &e3, j);
        let m4 = ext_match_exec(u, &e4, j);
        let m5 = ext_match_exec(u, &e5, j);
        if m1 || m2 || m3 || m4 || m5 {
            proof {
                assert(is_image_extension(".jpg"@));
                assert(is_image_extension(".jpeg"@));
                assert(is_image_extension(".png"@));
                assert(is_image_extension(".gif"@));
                assert(is_image_extension(".webp"@));
            }
            return true;
        }
        proof {
            assert forall|e: Seq<char>, jj: int|
                is_image_extension(e) && 8 <= jj < j + 1 implies !ext_match(u@, e, jj) by {
                if jj == j {
                    assert(!ext_match(u@, e1@, jj));
                    assert(!ext_match(u@, e2@, jj));
                    assert(!ext_match(u@, e3@, jj));
                    assert(!ext_match(u@, e4@, jj));
                    assert(!ext_match(u@, e5@, jj));
                }
            }
        }
        j = j + 1;
    }
    proof {
        assert forall|e: Seq<char>, jj: int|
            is_image_extension(e) && 8 <= jj implies !ext_match(u@, e, jj) by {
            if jj >= j {
                reveal_strlit(".jpg");
                reveal_strlit(".jpeg");
                reveal_strlit(".png");
                reveal_strlit(".gif");
                reveal_strlit(".webp");
                assert(e.len() >= 4);
                assert(!match_at(u@, e, jj));
            }
        }
    }
    false
}

/// Checks for a structural match starting at `i`; on success returns the raw
/// URL capture and the position right after the match.
fn try_match_at(s: &Vec<char>, i: usize) -> (r: Option<(Vec<char>, usize)>)
    requires
        i < s@.len(),
    ensures
        match r {
            Some(p) => {
                &&& match_here(s@, i as int)
                &&& p.0@ == url_at(s@, i as int)
                &&& p.1 as int == match_end(s@, i as int)
                &&& i < p.1 <= s@.len()
            },
            None => !match_here(s@, i as int),
        },
{
    let n: usize = s.len();
    if s[i] != '[' {
        return None;
    }
    if n - i < 2 {
        return None;
    }
    if s[i + 1] != '"' {
        return None;
    }
    let e = find_char_from(s, '"', i + 2);
    if e == n {
        return None;
    }
    let content = subrange_vec(s, i + 2, e);
    if !check_url_content(&content) {
        return None;
    }
    if e + 1 >= n {
        return None;
    }
    if s[e + 1] != ',' {
        return None;
    }
    let d1 = digits_end_from(s, e + 2);
    if d1 == e + 2 || d1 == n {
        return None;
    }
    if s[d1] != ',' {
        return None;
    }
    let d2 = digits_end_from(s, d1 + 1);
    if d2 == d1 + 1 || d2 == n {
        return None;
    }
    if s[d2] != ']' {
        return None;
    }
    proof {
        lemma_match_end_bounds(s@, i as int);
    }
    Some((content, d2 + 1))
}

fn contains_url(results: &Vec<ImageResult>, u: &String) -> (b: bool)
    ensures
        b == urls_of(results@).contains(u@),
{
    let mut k: usize = 0;
    while k < results.len()
        invariant
            k <= results@.len(),
            forall|j: int| 0 <= j < k ==> results@[j].url@ != u@,
        decreases results@.len() - k,
    {
        if results[k].url == *u {
            assert(urls_of(results@)[k as int] == u@);
            return true;
        }
        k = k + 1;
    }
    assert forall|j: int| 0 <= j < urls_of(results@).len() implies urls_of(results@)[j] != u@ by {}
    false
}

/// Scans the whole document and returns, in document order, one result per
/// distinct normalized URL that the validator accepts, with its source site.
pub fn parse_google_html(html: &str) -> (results: Vec<ImageResult>)
    ensures
        urls_of(results@) == spec_image_urls(html@),
        forall|k: int|
            0 <= k < results@.len() ==> results@[k].source_site@ == spec_extract_domain(
                results@[k].url@,
            ),
{
    let s = str_to_chars(html);
    let n: usize = s.len();
    let mut results: Vec<ImageResult> = Vec::new();
    let mut i: usize = 0;
    proof {
        assert(urls_of(results@) =~= Seq::<Seq<char>>::empty());
    }
    while i < n
        invariant
            n == s@.len(),
            s@ == html@,
            i <= n,
            accept_all(urls_of(results@), scan_from(s@, i as int)) == spec_image_urls(html@),
            forall|k: int|
                0 <= k < results@.len() ==> results@[k].source_site@ == spec_extract_domain(
                    results@[k].url@,
                ),
        decreases n - i,
    {
        let ghost pre = results@;
        match try_match_at(&s, i) {
            Some(p) => {
                let (content, end) = p;
                let raw = chars_to_string(&content);
                let u = clean_url(raw.as_str());
                let ok = is_valid_image_url(u.as_str());
                let dup = contains_url(&results, &u);
                proof {
                    let raws = scan_from(s@, i as int);
                    assert(raws == seq![url_at(s@, i as int)] + scan_from(
                        s@,
                        match_end(s@, i as int),
                    ));
                    assert(raws[0] == url_at(s@, i as int));
                    assert(raws.skip(1) =~= scan_from(s@, match_end(s@, i as int)));
                    assert(accept_all(urls_of(pre), raws) == accept_all(
                        accept_step(urls_of(pre), url_at(s@, i as int)),
                        scan_from(s@, match_end(s@, i as int)),
                    ));
                }
                if ok && !dup {
                    let site = extract_domain(u.as_str());
                    let ghost uv = u@;
                    results.push(ImageResult { url: u, source_site: site });
                    proof {
                        assert(urls_of(results@) =~= urls_of(pre).push(uv));
                    }
                } else {
                    proof {
                        assert(accept_step(urls_of(pre), url_at(s@, i as int)) == urls_of(pre));
                    }
                }
                i = end;
            },
            None => {
                i = i + 1;
            },
        }
    }
    proof {
        assert(scan_from(s@, i as int) =~= Seq::<Seq<char>>::empty());
        assert(accept_all(urls_of(results@), Seq::<Seq<char>>::empty()) == urls_of(results@));
    }
    results
}

/// Extraction with the truncation policy applied: at most `max_images`
/// results are kept, earliest matches first; the second component reports
/// the count of accepted, deduplicated results before truncation.
pub fn extract_images(html: &str, max_images: usize) -> (r: (Vec<ImageResult>, usize))
    ensures
        ({
            let urls = spec_image_urls(html@);
            &&& r.1 == urls.len()
            &&& urls_of(r.0@) == if urls.len() <= max_images {
                urls
            } else {
                urls.subrange(0, max_images as int)
            }
            &&& r.0@.len() <= max_images
            &&& urls.len() >= max_images ==> r.0@.len() == max_images
            &&& urls.len() < max_images ==> r.0@.len() == urls.len()
            &&& forall|k: int|
                0 <= k < r.0@.len() ==> r.0@[k].source_site@ == spec_extract_domain(r.0@[k].url@)
            &&& all_distinct(urls_of(r.0@))
        }),
{
    let mut results = parse_google_html(html);
    let raw_found: usize = results.len();
    let ghost urls = spec_image_urls(html@);
    results.truncate(max_images);
    proof {
        lemma_image_urls_distinct(html@);
        if urls.len() <= max_images {
            assert(urls_of(results@) =~= urls);
        } else {
            assert(urls_of(results@) =~= urls.subrange(0, max_images as int));
        }
    }
    (results, raw_found)
}

} // verus!
