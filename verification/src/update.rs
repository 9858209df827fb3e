//! Release update check: version comparison, the GitHub API endpoint for a
//! repository, and the outcome of a finished check.

use vstd::prelude::*;
use crate::text::{
    chars_of, extend_chars, find_char, find_char_chars, parse_u32,
    slice_chars, spec_parse_u32, string_from_chars, trim_end_char, trim_end_char_chars,
    trim_start_char, trim_start_char_chars, trim_start_seq, trim_start_seq_chars,
    all_digits, digit_char, digit_value, digits_value, find_char_from, is_digit,
    lemma_find_char_from, spec_decimal, unsigned_digits,
};

verus! {

/// Result of an update check.
#[derive(Clone, Debug)]
pub enum UpdateStatus {
    /// A newer release exists; `url` is its release page.
    Available { version: String, url: String },
    /// The running version is the latest.
    UpToDate,
    /// The check could not be completed.
    Failed,
}

/// The three `'.'`-separated pieces of a version (`str::splitn(3, '.')`), once
/// every leading `'v'` is gone; `None` when there are fewer than three.
pub open spec fn version_pieces(s: Seq<char>) -> Option<(Seq<char>, Seq<char>, Seq<char>)> {
    let t = trim_start_char(s, 'v');
    let i1 = find_char(t, '.');
    if i1 >= t.len() {
        None
    } else {
        let r = t.subrange(i1 + 1, t.len() as int);
        let i2 = find_char(r, '.');
        if i2 >= r.len() {
            None
        } else {
            Some((t.subrange(0, i1), r.subrange(0, i2), r.subrange(i2 + 1, r.len() as int)))
        }
    }
}

/// The part of `s` before its first `'-'` or `'+'`.
pub open spec fn before_suffix(s: Seq<char>) -> Seq<char> {
    let a = find_char(s, '-');
    let b = find_char(s, '+');
    s.subrange(0, if a <= b { a } else { b })
}

/// `[v]MAJOR.MINOR.PATCH[-pre|+build]` as a tuple; a pre-release or build
/// suffix on the patch number is ignored.
pub open spec fn spec_parse_semver(s: Seq<char>) -> Option<(u32, u32, u32)> {
    match version_pieces(s) {
        Some((a, b, c)) => match (
            spec_parse_u32(a),
            spec_parse_u32(b),
            spec_parse_u32(before_suffix(c)),
        ) {
            (Some(x), Some(y), Some(z)) => Some((x, y, z)),
            _ => None,
        },
        None => None,
    }
}

/// Lexicographic `>` on version tuples.
pub open spec fn version_gt(a: (u32, u32, u32), b: (u32, u32, u32)) -> bool {
    ||| a.0 > b.0
    ||| (a.0 == b.0 && a.1 > b.1)
    ||| (a.0 == b.0 && a.1 == b.1 && a.2 > b.2)
}

/// Whether `latest` parses to a strictly higher version than `current`.
pub open spec fn spec_is_newer(current: Seq<char>, latest: Seq<char>) -> bool {
    match (spec_parse_semver(current), spec_parse_semver(latest)) {
        (Some(c), Some(l)) => version_gt(l, c),
        _ => false,
    }
}

/// Splits a version into its three pieces.
pub fn split_version(s: &[char]) -> (res: Option<(Vec<char>, Vec<char>, Vec<char>)>)
    ensures
        match (res, version_pieces(s@)) {
            (Some((a, b, c)), Some((x, y, z))) => a@ == x && b@ == y && c@ == z,
            (None, None) => true,
            _ => false,
        },
{
    let t = trim_start_char_chars(s, 'v');
    let i1 = find_char_chars(&t, '.');
    if i1 >= t.len() {
        return None;
    }
    let r = slice_chars(&t, i1 + 1, t.len());
    let i2 = find_char_chars(&r, '.');
    if i2 >= r.len() {
        return None;
    }
    Some((slice_chars(&t, 0, i1), slice_chars(&r, 0, i2), slice_chars(&r, i2 + 1, r.len())))
}

/// Parses `[v]MAJOR.MINOR.PATCH` into a comparable tuple, ignoring any
/// pre-release or build suffix on the patch number.
pub fn parse_semver(s: &str) -> (res: Option<(u32, u32, u32)>)
    ensures
        res == spec_parse_semver(s@),
{
    let cs = chars_of(s);
    match split_version(&cs) {
        None => None,
        Some((a, b, c)) => {
            let ia = find_char_chars(&c, '-');
            let ib = find_char_chars(&c, '+');
            let cut = if ia <= ib {
                ia
            } else {
                ib
            };
            let patch = slice_chars(&c, 0, cut);
            match (parse_u32(&a), parse_u32(&b), parse_u32(&patch)) {
                (Some(x), Some(y), Some(z)) => Some((x, y, z)),
                _ => None,
            }
        },
    }
}

/// Whether `latest` is a strictly higher version than `current` (both may
/// carry a leading `v`); `false` when either does not parse.
pub fn is_newer(current: &str, latest: &str) -> (res: bool)
    ensures
        res == spec_is_newer(current@, latest@),
{
    match (parse_semver(current), parse_semver(latest)) {
        (Some(c), Some(l)) => l.0 > c.0 || (l.0 == c.0 && l.1 > c.1) || (l.0 == c.0 && l.1 == c.1
            && l.2 > c.2),
        _ => false,
    }
}

/// No version is newer than itself.
pub proof fn lemma_is_newer_irreflexive(v: Seq<char>)
    ensures
        !spec_is_newer(v, v),
{
}

/// Of two versions, at most one is newer than the other.
pub proof fn lemma_is_newer_asymmetric(a: Seq<char>, b: Seq<char>)
    ensures
        !(spec_is_newer(a, b) && spec_is_newer(b, a)),
{
}

/// Being newer is transitive.
pub proof fn lemma_is_newer_transitive(a: Seq<char>, b: Seq<char>, c: Seq<char>)
    requires
        spec_is_newer(a, b),
        spec_is_newer(b, c),
    ensures
        spec_is_newer(a, c),
{
}

/// For versions that both parse, `latest` is newer than `current` exactly
/// when its (major, minor, patch) is lexicographically greater: a higher
/// major wins whatever the minor and patch numbers, then a higher minor, then
/// a higher patch. A version that does not parse is never newer, nor older.
pub proof fn lemma_is_newer_lexicographic(current: Seq<char>, latest: Seq<char>)
    ensures
        (spec_parse_semver(current) is None || spec_parse_semver(latest) is None) ==> !spec_is_newer(
            current,
            latest,
        ),
        spec_parse_semver(current) matches Some((c0, c1, c2)) ==> spec_parse_semver(latest) matches Some((l0, l1, l2)) ==> {
            &&& l0 > c0 ==> spec_is_newer(current, latest)
            &&& l0 < c0 ==> !spec_is_newer(current, latest)
            &&& l0 == c0 && l1 > c1 ==> spec_is_newer(current, latest)
            &&& l0 == c0 && l1 < c1 ==> !spec_is_newer(current, latest)
            &&& l0 == c0 && l1 == c1 ==> (spec_is_newer(current, latest) <==> l2 > c2)
        },
{
}

proof fn lemma_decimal_parses(n: nat)
    ensures
        spec_decimal(n).len() > 0,
        all_digits(spec_decimal(n)),
        digits_value(spec_decimal(n)) == n,
    decreases n,
{
    let d = spec_decimal(n);
    if n < 10 {
        assert(d[0] == digit_char(n));
        assert(d.drop_last() =~= Seq::<char>::empty());
        assert(digit_char(n) as nat == n + 48);
        assert(d.last() == digit_char(n));
        assert(digits_value(Seq::<char>::empty()) == 0);
        assert(digit_value(d.last()) == n);
    } else {
        lemma_decimal_parses(n / 10);
        let e = spec_decimal(n / 10);
        assert(d.drop_last() =~= e);
        assert(d.last() == digit_char(n % 10));
        assert(digit_char(n % 10) as nat == n % 10 + 48);
        assert(digit_value(d.last()) == n % 10);
        assert((n / 10) * 10 + n % 10 == n);
        assert forall|k: int| 0 <= k < d.len() implies is_digit(#[trigger] d[k]) by {
            if k < e.len() {
                assert(d[k] == e[k]);
            }
        }
    }
}

proof fn lemma_decimal_u32(x: u32)
    ensures
        spec_parse_u32(spec_decimal(x as nat)) == Some(x),
        spec_decimal(x as nat).len() > 0,
        forall|k: int|
            0 <= k < spec_decimal(x as nat).len() ==> #[trigger] spec_decimal(x as nat)[k] != '.'
                && spec_decimal(x as nat)[k] != '-' && spec_decimal(x as nat)[k] != '+'
                && spec_decimal(x as nat)[k] != 'v',
{
    let d = spec_decimal(x as nat);
    lemma_decimal_parses(x as nat);
    assert(is_digit(d[0]));
    assert(unsigned_digits(d) == d);
    assert forall|k: int| 0 <= k < d.len() implies #[trigger] d[k] != '.' && d[k] != '-' && d[k]
        != '+' && d[k] != 'v' by {
        assert(is_digit(d[k]));
    }
}

proof fn lemma_find_after(a: Seq<char>, b: Seq<char>, c: char, i: int)
    requires
        0 <= i <= a.len(),
        forall|k: int| 0 <= k < a.len() ==> a[k] != c,
        b.len() > 0,
        b[0] == c,
    ensures
        find_char_from(a + b, c, i) == a.len(),
    decreases a.len() - i,
{
    if i < a.len() {
        assert((a + b)[i] == a[i]);
        lemma_find_after(a, b, c, i + 1);
    } else {
        assert((a + b)[i] == b[0]);
    }
}

/// `MAJOR.MINOR.PATCH` written in decimal parses to its three numbers, with
/// or without a leading `v`, and a pre-release suffix after a `-` on the
/// patch number is ignored: `1.10.0` is `(1, 10, 0)`, `v2.0.0-rc1` is
/// `(2, 0, 0)`.
pub proof fn lemma_parse_semver_dotted(x: u32, y: u32, z: u32, pre: Seq<char>)
    ensures
        ({
            let s = spec_decimal(x as nat) + seq!['.'] + spec_decimal(y as nat) + seq!['.']
                + spec_decimal(z as nat);
            &&& spec_parse_semver(s) == Some((x, y, z))
            &&& spec_parse_semver(seq!['v'] + s) == Some((x, y, z))
            &&& spec_parse_semver(s + seq!['-'] + pre) == Some((x, y, z))
        }),
{
    let d1 = spec_decimal(x as nat);
    let d2 = spec_decimal(y as nat);
    let d3 = spec_decimal(z as nat);
    lemma_decimal_u32(x);
    lemma_decimal_u32(y);
    lemma_decimal_u32(z);
    let s = d1 + seq!['.'] + d2 + seq!['.'] + d3;
    lemma_find_char_from(d3, '-', 0);
    lemma_find_char_from(d3, '+', 0);
    assert(before_suffix(d3) =~= d3);
    lemma_pieces(d1, d2, d3, x, y, z);
    let vs = seq!['v'] + s;
    assert(vs.drop_first() =~= s);
    assert(trim_start_char(vs, 'v') == trim_start_char(s, 'v'));
    let d3p = d3 + seq!['-'] + pre;
    assert(s + seq!['-'] + pre =~= d1 + seq!['.'] + d2 + seq!['.'] + d3p);
    lemma_find_after(d3, seq!['-'] + pre, '-', 0);
    assert(d3 + (seq!['-'] + pre) =~= d3p);
    lemma_find_char_from(d3p, '+', 0);
    if find_char(d3p, '+') < d3.len() {
        assert(d3p[find_char(d3p, '+')] == d3[find_char(d3p, '+')]);
    }
    assert(before_suffix(d3p) =~= d3);
    lemma_pieces(d1, d2, d3p, x, y, z);
}

/// The three pieces of `d1.d2.d3`, where `d1` and `d2` are decimal numbers.
proof fn lemma_pieces(d1: Seq<char>, d2: Seq<char>, d3: Seq<char>, x: u32, y: u32, z: u32)
    requires
        d1.len() > 0,
        forall|k: int| 0 <= k < d1.len() ==> #[trigger] d1[k] != '.' && d1[k] != 'v',
        forall|k: int| 0 <= k < d2.len() ==> #[trigger] d2[k] != '.',
        spec_parse_u32(d1) == Some(x),
        spec_parse_u32(d2) == Some(y),
        spec_parse_u32(before_suffix(d3)) == Some(z),
    ensures
        spec_parse_semver(d1 + seq!['.'] + d2 + seq!['.'] + d3) == Some((x, y, z)),
{
    let s = d1 + seq!['.'] + d2 + seq!['.'] + d3;
    let rest = d2 + seq!['.'] + d3;
    assert(s[0] == d1[0]);
    assert(trim_start_char(s, 'v') == s);
    assert(s =~= d1 + (seq!['.'] + rest));
    lemma_find_after(d1, seq!['.'] + rest, '.', 0);
    assert(s.subrange(0, d1.len() as int) =~= d1);
    assert(s.subrange(d1.len() as int + 1, s.len() as int) =~= rest);
    assert(rest =~= d2 + (seq!['.'] + d3));
    lemma_find_after(d2, seq!['.'] + d3, '.', 0);
    assert(rest.subrange(0, d2.len() as int) =~= d2);
    assert(rest.subrange(d2.len() as int + 1, rest.len() as int) =~= d3);
}

/// The `owner/repo` path of a repository URL.
pub open spec fn repo_path(repo_url: Seq<char>) -> Seq<char> {
    trim_start_seq(
        trim_start_seq(trim_end_char(repo_url, '/'), "https://github.com/"@),
        "http://github.com/"@,
    )
}

/// The latest-release API endpoint for a repository URL.
pub open spec fn spec_github_api_url(repo_url: Seq<char>) -> Seq<char> {
    "https://api.github.com/repos/"@ + repo_path(repo_url) + "/releases/latest"@
}

/// Turns `https://github.com/owner/repo` into the latest-release API endpoint.
pub fn github_api_url(repo_url: &str) -> (res: String)
    ensures
        res@ == spec_github_api_url(repo_url@),
{
    let url = chars_of(repo_url);
    let a = trim_end_char_chars(&url, '/');
    let https = chars_of("https://github.com/");
    let b = trim_start_seq_chars(&a, &https);
    let http = chars_of("http://github.com/");
    let path = trim_start_seq_chars(&b, &http);
    let mut out = chars_of("https://api.github.com/repos/");
    extend_chars(&mut out, &path);
    let tail = chars_of("/releases/latest");
    extend_chars(&mut out, &tail);
    string_from_chars(&out)
}

/// The outcome of a check that fetched the latest release: its tag and page
/// when the reply carried them.
pub open spec fn spec_release_status(
    current: Seq<char>,
    repository: Seq<char>,
    tag: Option<Seq<char>>,
    html_url: Option<Seq<char>>,
) -> (Option<(Seq<char>, Seq<char>)>, bool) {
    match tag {
        None => (None, false),
        Some(t) => if !spec_is_newer(current, t) {
            (None, true)
        } else {
            let url = match html_url {
                Some(u) => u,
                None => trim_end_char(repository, '/') + "/releases/latest"@,
            };
            (Some((trim_start_char(t, 'v'), url)), true)
        },
    }
}

/// Settles a finished check: no tag is a failure; a tag that is not newer
/// means up to date; otherwise the update is available at the release page
/// (or `<repository>/releases/latest` when the reply has none).
pub fn release_status(
    current: &str,
    repository: &str,
    tag: Option<&str>,
    html_url: Option<&str>,
) -> (res: UpdateStatus)
    ensures
        ({
            let spec = spec_release_status(
                current@,
                repository@,
                match tag {
                    Some(t) => Some(t@),
                    None => None,
                },
                match html_url {
                    Some(u) => Some(u@),
                    None => None,
                },
            );
            match res {
                UpdateStatus::Failed => spec.0 is None && !spec.1,
                UpdateStatus::UpToDate => spec.0 is None && spec.1,
                UpdateStatus::Available { version, url } => spec.0 == Some((version@, url@)),
            }
        }),
{
    let t = match tag {
        None => return UpdateStatus::Failed,
        Some(t) => t,
    };
    if !is_newer(current, t) {
        return UpdateStatus::UpToDate;
    }
    let url = match html_url {
        Some(u) => string_from_chars(&chars_of(u)),
        None => {
            let repo = chars_of(repository);
            let mut out = trim_end_char_chars(&repo, '/');
            let tail = chars_of("/releases/latest");
            extend_chars(&mut out, &tail);
            string_from_chars(&out)
        },
    };
    let tc = chars_of(t);
    let version = string_from_chars(&trim_start_char_chars(&tc, 'v'));
    UpdateStatus::Available { version, url }
}

} // verus!
