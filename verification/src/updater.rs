//! Update check of the standalone proxy: strict `MAJOR.MINOR.PATCH` versions.

use vstd::prelude::*;
use crate::text::{
    chars_of, extend_chars, parse_u32, spec_parse_u32, string_from_chars, trim_end_char,
    trim_end_char_chars, trim_start_seq, trim_start_seq_chars,
};
use crate::update::{split_version, version_gt, version_pieces};

verus! {

/// `[v]MAJOR.MINOR.PATCH` as a tuple; each piece must be a whole number.
pub open spec fn spec_parse_semver(s: Seq<char>) -> Option<(u32, u32, u32)> {
    match version_pieces(s) {
        Some((a, b, c)) => match (spec_parse_u32(a), spec_parse_u32(b), spec_parse_u32(c)) {
            (Some(x), Some(y), Some(z)) => Some((x, y, z)),
            _ => None,
        },
        None => None,
    }
}

/// Whether `latest` parses to a strictly higher version than `current`.
pub open spec fn spec_is_newer(current: Seq<char>, latest: Seq<char>) -> bool {
    match (spec_parse_semver(current), spec_parse_semver(latest)) {
        (Some(c), Some(l)) => version_gt(l, c),
        _ => false,
    }
}

/// Parses `[v]MAJOR.MINOR.PATCH` into a comparable tuple.
pub fn parse_semver(s: &str) -> (res: Option<(u32, u32, u32)>)
    ensures
        res == spec_parse_semver(s@),
{
    let cs = chars_of(s);
    match split_version(&cs) {
        None => None,
        Some((a, b, c)) => match (parse_u32(&a), parse_u32(&b), parse_u32(&c)) {
            (Some(x), Some(y), Some(z)) => Some((x, y, z)),
            _ => None,
        },
    }
}

/// Whether `latest` is a strictly higher version than `current`; `false` when
/// either does not parse.
pub fn is_newer(current: &str, latest: &str) -> (res: bool)
    ensures
        res == spec_is_newer(current@, latest@),
{
    match (parse_semver(current), parse_semver(latest)) {
        (Some(c), Some(l)) => l.0 > c.0 || (l.0 == c.0 && l.1 > c.1) || (l.0 == c.0 && l.1 == c.1
            && l.2 > c.2),
        _ => false,
    }
}

/// No version is newer than itself.
pub proof fn lemma_is_newer_irreflexive(v: Seq<char>)
    ensures
        !spec_is_newer(v, v),
{
}

/// Of two versions, at most one is newer than the other.
pub proof fn lemma_is_newer_asymmetric(a: Seq<char>, b: Seq<char>)
    ensures
        !(spec_is_newer(a, b) && spec_is_newer(b, a)),
{
}

/// Being newer is transitive.
pub proof fn lemma_is_newer_transitive(a: Seq<char>, b: Seq<char>, c: Seq<char>)
    requires
        spec_is_newer(a, b),
        spec_is_newer(b, c),
    ensures
        spec_is_newer(a, c),
{
}

/// The latest-release API endpoint for an `https://github.com/...` URL.
pub open spec fn spec_github_api_url(repo_url: Seq<char>) -> Seq<char> {
    "https://api.github.com/repos/"@ + trim_start_seq(
        trim_end_char(repo_url, '/'),
        "https://github.com/"@,
    ) + "/releases/latest"@
}

/// Turns `https://github.com/owner/repo` into the latest-release API endpoint.
pub fn github_api_url(repo_url: &str) -> (res: String)
    ensures
        res@ == spec_github_api_url(repo_url@),
{
    let url = chars_of(repo_url);
    let a = trim_end_char_chars(&url, '/');
    let https = chars_of("https://github.com/");
    let path = trim_start_seq_chars(&a, &https);
    let mut out = chars_of("https://api.github.com/repos/");
    extend_chars(&mut out, &path);
    let tail = chars_of("/releases/latest");
    extend_chars(&mut out, &tail);
    string_from_chars(&out)
}

} // verus!
