//! Provider-agnostic release domain model shared by every forge client,
//! and the release timestamp reading.
use vstd::prelude::*;

verus! {

/// The Unix seconds jiff reads from an RFC 3339 timestamp, if it parses.
pub uninterp spec fn rfc3339_seconds(s: Seq<char>) -> Option<i64>;

/// The Unix seconds jiff's `strptime` reads from `s` under `format`, if it
/// parses.
pub uninterp spec fn strptime_seconds(format: Seq<char>, s: Seq<char>) -> Option<i64>;

/// `s.parse::<jiff::Timestamp>()` followed by `as_second`. The contract
/// ties the result to `rfc3339_seconds` and claims nothing of its values.
#[verifier::external_body]
fn parse_rfc3339(s: &str) -> (r: Option<i64>)
    ensures
        r == rfc3339_seconds(s@),
{
    s.parse::<jiff::Timestamp>().ok().map(|t| t.as_second())
}

/// `jiff::Timestamp::strptime(format, s)` followed by `as_second`. The
/// contract ties the result to `strptime_seconds` and claims nothing of its
/// values.
#[verifier::external_body]
fn parse_strptime(format: &str, s: &str) -> (r: Option<i64>)
    ensures
        r == strptime_seconds(format@, s@),
{
    jiff::Timestamp::strptime(format, s).ok().map(|t| t.as_second())
}

/// The fractional-seconds UTC layout tried after RFC 3339.
pub open spec fn fractional_layout() -> Seq<char> {
    "%Y-%m-%dT%H:%M:%S%.fZ"@
}

/// The whole-seconds UTC layout tried last.
pub open spec fn whole_layout() -> Seq<char> {
    "%Y-%m-%dT%H:%M:%SZ"@
}

/// What `parse_timestamp` reads: RFC 3339 first, then the two UTC layouts.
pub open spec fn timestamp_of(s: Seq<char>) -> Option<i64> {
    match rfc3339_seconds(s) {
        Some(t) => Some(t),
        None => match strptime_seconds(fractional_layout(), s) {
            Some(t) => Some(t),
            None => strptime_seconds(whole_layout(), s),
        },
    }
}

/// Parse an ISO-8601 / RFC 3339 timestamp (`2025-01-01T00:00:00[.fff]Z`)
/// into Unix epoch seconds.
pub fn parse_timestamp(s: &str) -> (r: Option<i64>)
    ensures
        r == timestamp_of(s@),
{
    match parse_rfc3339(s) {
        Some(t) => Some(t),
        None => match parse_strptime("%Y-%m-%dT%H:%M:%S%.fZ", s) {
            Some(t) => Some(t),
            None => parse_strptime("%Y-%m-%dT%H:%M:%SZ", s),
        },
    }
}

/// Minimal release metadata for suggestions.
#[derive(Debug, Clone)]
pub struct ReleaseMeta {
    pub tag: String,
    pub published_at: Option<String>,
}

/// Repository license metadata (SPDX id + optional full text).
#[derive(Debug, Clone)]
pub struct RepoLicense {
    pub spdx: String,
    pub text: Option<String>,
}

/// A forge release (the subset lx needs, normalized so every forge source
/// shares one release type).
#[derive(Debug, Clone)]
pub struct Release {
    pub tag_name: String,
    pub prerelease: bool,
    pub draft: bool,
    pub html_url: String,
    pub assets: Vec<Asset>,
    /// Unix epoch seconds the release was published, when the provider
    /// reports one.
    pub published_at: Option<i64>,
    /// The release's own markdown notes, when the provider reports any.
    pub body: Option<String>,
}

/// A release asset (the subset lx needs).
#[derive(Debug, Clone)]
pub struct Asset {
    pub name: String,
    pub size: Option<u64>,
    pub browser_download_url: String,
    /// Inline checksums the provider already published, as (algorithm, hex)
    /// pairs ordered by algorithm.
    pub checksums: Vec<(String, String)>,
}

} // verus!
