//! Report assembler: the report data model, run-identifier derivation from
//! the completion timestamp, and the user-agent pool used for rotation.
use vstd::prelude::*;
use crate::extract::ImageResult;
use crate::text::chars_to_string;

verus! {

/// Outcome recorded in a report's metadata. A report is only ever assembled
/// for a completed extraction, so an assembled report carries `Success`;
/// transport failures abort before any report exists.
#[derive(Debug, Clone, Copy, PartialEq, Eq, Structural)]
pub enum SearchStatus {
    Success,
    Failure,
}

/// The hexadecimal digit for a value below 16, lower case.
pub open spec fn hex_digit(d: int) -> char {
    if d < 10 {
        (('0' as int) + d) as char
    } else {
        (('a' as int) + d - 10) as char
    }
}

/// Lower-case hexadecimal rendering of `n`, most significant digit first,
/// without leading zeros; zero renders as a single digit.
pub open spec fn spec_hex(n: nat) -> Seq<char>
    decreases n,
{
    if n < 16 {
        seq![hex_digit(n as int)]
    } else {
        spec_hex(n / 16).push(hex_digit((n % 16) as int))
    }
}

fn hex_digit_exec(d: u64) -> (c: char)
    requires
        d < 16,
    ensures
        c == hex_digit(d as int),
{
    let b: u8 = if d < 10 {
        48 + (d as u8)
    } else {
        87 + (d as u8)
    };
    b as char
}

pub fn to_hex_u64(n: u64) -> (v: Vec<char>)
    ensures
        v@ == spec_hex(n as nat),
    decreases n,
{
    if n < 16 {
        let mut v: Vec<char> = Vec::new();
        v.push(hex_digit_exec(n));
        proof {
            assert(v@ =~= seq![hex_digit(n as int)]);
        }
        v
    } else {
        let mut v = to_hex_u64(n / 16);
        v.push(hex_digit_exec(n % 16));
        v
    }
}

/// The 64-bit two's-complement pattern of `v`, read as unsigned.
pub open spec fn as_unsigned_64(v: i64) -> nat {
    if v >= 0 {
        v as nat
    } else {
        (v + 0x10000000000000000) as nat
    }
}

/// The run identifier derived from a completion timestamp: the hexadecimal
/// rendering of the nanosecond value's 64-bit pattern, with the rendering of
/// zero as the fixed fallback when no nanosecond value is representable.
pub open spec fn spec_run_id(nanos: Option<i64>) -> Seq<char> {
    match nanos {
        Some(v) => spec_hex(as_unsigned_64(v)),
        None => spec_hex(0),
    }
}

pub fn run_id_from_nanos(nanos: Option<i64>) -> (out: String)
    ensures
        out@ == spec_run_id(nanos),
{
    let v: i64 = match nanos {
        Some(x) => x,
        None => 0,
    };
    let w: u64 = if v >= 0 {
        v as u64
    } else {
        let d: i128 = (v as i128) + 0x10000000000000000i128;
        d as u64
    };
    assert(w as nat == as_unsigned_64(v));
    let h = to_hex_u64(w);
    chars_to_string(&h)
}

/// Query parameters of one search request.
pub struct SearchParameters {
    pub engine: String,
    pub query: String,
    pub locale: String,
    pub safe_mode: String,
}

/// Counters of one extraction pass; the parse duration is a nanosecond
/// value.
pub struct ExtractionStats {
    pub raw_found: usize,
    pub after_filter: usize,
    pub parse_nanos: u64,
}

/// Identity and timing of one completed run; timestamps are nanosecond
/// values since the epoch, `None` when not representable at that
/// resolution.
pub struct SearchMetadata {
    pub run_id: String,
    pub status: SearchStatus,
    pub request_url: String,
    pub created_at_nanos: Option<i64>,
    pub completed_at_nanos: Option<i64>,
    pub elapsed_nanos: u64,
}

/// The final report: metadata, the request's parameters, extraction counts
/// and the ordered results.
pub struct Report {
    pub metadata: SearchMetadata,
    pub parameters: SearchParameters,
    pub stats: ExtractionStats,
    pub results: Vec<ImageResult>,
}

/// Composes the final report: fixed engine identity and search defaults,
/// the caller's query and request URL, a run identifier derived from the
/// completion timestamp, and the extraction output with its counts.
/// `after_filter` is the post-truncation result count, while `raw_found` is
/// handed in as the pre-truncation count.
pub fn assemble_report(
    query: &str,
    request_url: &str,
    results: Vec<ImageResult>,
    raw_found: usize,
    created_at_nanos: Option<i64>,
    completed_at_nanos: Option<i64>,
    elapsed_nanos: u64,
    parse_nanos: u64,
) -> (rep: Report)
    ensures
        rep.metadata.run_id@ == spec_run_id(completed_at_nanos),
        rep.metadata.status == SearchStatus::Success,
        rep.metadata.request_url@ == request_url@,
        rep.metadata.created_at_nanos == created_at_nanos,
        rep.metadata.completed_at_nanos == completed_at_nanos,
        rep.metadata.elapsed_nanos == elapsed_nanos,
        rep.parameters.engine@ == "Google"@,
        rep.parameters.query@ == query@,
        rep.parameters.locale@ == "en"@,
        rep.parameters.safe_mode@ == "off"@,
        rep.stats.raw_found == raw_found,
        rep.stats.after_filter == results@.len(),
        rep.stats.parse_nanos == parse_nanos,
        rep.results == results,
{
    let after_filter: usize = results.len();
    let run_id = run_id_from_nanos(completed_at_nanos);
    Report {
        metadata: SearchMetadata {
            run_id,
            status: SearchStatus::Success,
            request_url: String::from_str(request_url),
            created_at_nanos,
            completed_at_nanos,
            elapsed_nanos,
        },
        parameters: SearchParameters {
            engine: String::from_str("Google"),
            query: String::from_str(query),
            locale: String::from_str("en"),
            safe_mode: String::from_str("off"),
        },
        stats: ExtractionStats { raw_found, after_filter, parse_nanos },
        results,
    }
}

/// The fixed, ordered pool of browser identifiers used for user-agent
/// rotation.
pub struct UserAgentPool {
    pub agents: Vec<String>,
}

/// Relies on `rand::rng` and `rand::Rng::random_range`: sampling `0..n`
/// panics when the range is empty and otherwise returns a value inside it;
/// nothing more is assumed of the outcome.
#[verifier::external_body]
fn random_below(n: usize) -> (r: usize)
    requires
        n > 0,
    ensures
        r < n,
{
    let mut generator = rand::rng();
    rand::Rng::random_range(&mut generator, 0..n)
}

impl UserAgentPool {
    /// A pool is usable once it holds at least one identifier.
    pub open spec fn wf(&self) -> bool {
        self.agents@.len() > 0
    }

    pub fn new() -> (p: UserAgentPool)
        ensures
            p.wf(),
            p.agents@.len() == 3,
            p.agents@[0]@
                == "Mozilla/5.0 (Windows NT 10.0; Win64; x64) AppleWebKit/537.36 (KHTML, like Gecko) Chrome/120.0.0.0 Safari/537.36"@,
            p.agents@[1]@
                == "Mozilla/5.0 (Macintosh; Intel Mac OS X 10_15_7) AppleWebKit/537.36 (KHTML, like Gecko) Chrome/120.0.0.0 Safari/537.36"@,
            p.agents@[2]@
                == "Mozilla/5.0 (iPhone; CPU iPhone OS 14_7_1 like Mac OS X) AppleWebKit/605.1.15 (KHTML, like Gecko) Version/14.1.2 Mobile/15E148 Safari/604.1"@,
    {
        let mut agents: Vec<String> = Vec::new();
        agents.push(
            String::from_str(
                "Mozilla/5.0 (Windows NT 10.0; Win64; x64) AppleWebKit/537.36 (KHTML, like Gecko) Chrome/120.0.0.0 Safari/537.36",
            ),
        );
        agents.push(
            String::from_str(
                "Mozilla/5.0 (Macintosh; Intel Mac OS X 10_15_7) AppleWebKit/537.36 (KHTML, like Gecko) Chrome/120.0.0.0 Safari/537.36",
            ),
        );
        agents.push(
            String::from_str(
                "Mozilla/5.0 (iPhone; CPU iPhone OS 14_7_1 like Mac OS X) AppleWebKit/605.1.15 (KHTML, like Gecko) Version/14.1.2 Mobile/15E148 Safari/604.1",
            ),
        );
        UserAgentPool { agents }
    }

    /// One pool entry, chosen pseudorandomly; the result is always an entry
    /// of the pool.
    pub fn get_random_user_agent(&self) -> (ua: &String)
        requires
            self.wf(),
        ensures
            exists|k: int| 0 <= k < self.agents@.len() && ua@ == self.agents@[k]@,
    {
        let idx = random_below(self.agents.len());
        &self.agents[idx]
    }
}

} // verus!
