//! Release version strings: normalising, parsing and comparing them, and
//! picking the installer out of a release.

use std::cmp::Ordering;
use vstd::prelude::*;
use crate::events::opt_view;
use crate::text::{
    eq_ascii_case, eq_ignore_ascii_case, find_char, find_either, find_from, is_char, is_either,
    lemma_find_from_bounds, trim_str, trimmed,
};

verus! {

pub open spec fn not_char(c: char) -> spec_fn(char) -> bool {
    |x: char| x != c
}

/// A version with surrounding whitespace and then any leading `v` removed.
pub open spec fn normalized_version(v: Seq<char>) -> Seq<char> {
    let t = trimmed(v);
    t.skip(find_from(t, not_char('v'), 0))
}

/// Index of the first character of `s` that is not `c`, or its length.
fn skip_char(s: &str, c: char) -> (r: usize)
    ensures
        r == find_from(s@, not_char(c), 0),
{
    let n = s.unicode_len();
    let mut i: usize = 0;
    while i < n
        invariant
            n == s@.len(),
            i <= n,
            find_from(s@, not_char(c), 0) == find_from(s@, not_char(c), i as int),
        decreases n - i,
    {
        if s.get_char(i) != c {
            return i;
        }
        i = i + 1;
    }
    i
}

/// Strips surrounding whitespace, then every leading `v`.
pub fn normalize_version(version: &str) -> (r: String)
    ensures
        r@ == normalized_version(version@),
{
    let t = trim_str(version);
    let k = skip_char(t, 'v');
    proof {
        lemma_find_from_bounds(t@, not_char('v'), 0);
    }
    let n = t.unicode_len();
    String::from_str(t.substring_char(k, n))
}

pub open spec fn digit_value(c: char) -> int {
    c as int - '0' as int
}

pub open spec fn all_digits(d: Seq<char>) -> bool {
    forall|i: int| 0 <= i < d.len() ==> '0' <= #[trigger] d[i] && d[i] <= '9'
}

/// Value of a string of decimal digits.
pub open spec fn digits_value(d: Seq<char>) -> int
    decreases d.len(),
{
    if d.len() == 0 {
        0
    } else {
        digits_value(d.drop_last()) * 10 + digit_value(d.last())
    }
}

/// The digits that `u64::from_str` reads: all of `s` after an optional `+`.
pub open spec fn unsigned_digits(s: Seq<char>) -> Seq<char> {
    if s.len() > 0 && s[0] == '+' {
        s.drop_first()
    } else {
        s
    }
}

/// `u64::from_str`: an optional `+` then one or more decimal digits, whose
/// value fits in 64 bits.
pub open spec fn u64_of(s: Seq<char>) -> Option<u64> {
    let d = unsigned_digits(s);
    if d.len() > 0 && all_digits(d) && digits_value(d) <= u64::MAX {
        Some(digits_value(d) as u64)
    } else {
        None
    }
}

proof fn lemma_digits_value_grows(d: Seq<char>, j: int)
    requires
        all_digits(d),
        0 <= j <= d.len(),
    ensures
        0 <= digits_value(d.take(j)) <= digits_value(d),
    decreases d.len() - j,
{
    if j < d.len() {
        lemma_digits_value_grows(d, j + 1);
        assert(d.take(j + 1).drop_last() =~= d.take(j));
        assert(d.take(j + 1).last() == d[j]);
    } else {
        assert(d.take(j) =~= d);
    }
    lemma_digits_nonneg(d.take(j));
}

proof fn lemma_digits_nonneg(d: Seq<char>)
    requires
        all_digits(d),
    ensures
        digits_value(d) >= 0,
    decreases d.len(),
{
    if d.len() > 0 {
        assert(all_digits(d.drop_last()));
        lemma_digits_nonneg(d.drop_last());
        assert('0' <= d[d.len() - 1]);
    }
}

/// Parses a decimal `u64` as `u64::from_str` does.
pub fn parse_u64(s: &str) -> (r: Option<u64>)
    ensures
        r == u64_of(s@),
{
    let n = s.unicode_len();
    let mut start: usize = 0;
    if n > 0 && s.get_char(0) == '+' {
        start = 1;
    }
    let ghost d = unsigned_digits(s@);
    assert(d =~= s@.skip(start as int));
    if start >= n {
        return None;
    }
    let mut i: usize = start;
    let mut v: u64 = 0;
    while i < n
        invariant
            n == s@.len(),
            start <= i <= n,
            d == s@.skip(start as int),
            d == unsigned_digits(s@),
            all_digits(d.take(i - start)),
            v as int == digits_value(d.take(i - start)),
        decreases n - i,
    {
        let c = s.get_char(i);
        if c < '0' || c > '9' {
            assert(d[i - start] == c);
            assert(!all_digits(d));
            return None;
        }
        let ghost k = i - start;
        assert(d.take(k + 1).drop_last() =~= d.take(k));
        assert(d.take(k + 1).last() == c);
        assert(all_digits(d.take(k + 1)));
        let dg = (c as u32 - '0' as u32) as u64;
        assert(digits_value(d.take(k + 1)) == v as int * 10 + dg as int);
        let next = match v.checked_mul(10) {
            Some(m) => m.checked_add(dg),
            None => None,
        };
        match next {
            Some(x) => {
                v = x;
            },
            None => {
                proof {
                    assert(v as int * 10 + dg as int > u64::MAX) by (nonlinear_arith)
                        requires
                            v as int * 10 > u64::MAX || (v as int * 10 <= u64::MAX && v as int * 10
                                + dg as int > u64::MAX),
                            dg >= 0,
                    ;
                    if all_digits(d) {
                        lemma_digits_value_grows(d, k + 1);
                    }
                }
                return None;
            },
        }
        i = i + 1;
    }
    assert(d.take(n - start) =~= d);
    Some(v)
}

/// The pieces of `s` between occurrences of `c`.
pub open spec fn split_on(s: Seq<char>, c: char) -> Seq<Seq<char>>
    decreases s.len(),
{
    let k = find_from(s, is_char(c), 0);
    if k < 0 || k >= s.len() {
        seq![s]
    } else {
        seq![s.take(k)] + split_on(s.skip(k + 1), c)
    }
}

proof fn lemma_split_head(s: Seq<char>, c: char)
    ensures
        split_on(s, c).len() >= 1,
        split_on(s, c)[0] == s.take(find_from(s, is_char(c), 0)),
        find_from(s, is_char(c), 0) >= s.len() ==> split_on(s, c).len() == 1,
        find_from(s, is_char(c), 0) < s.len() ==> split_on(s, c).drop_first() == split_on(
            s.skip(find_from(s, is_char(c), 0) + 1),
            c,
        ),
{
    lemma_find_from_bounds(s, is_char(c), 0);
    let k = find_from(s, is_char(c), 0);
    if k >= s.len() {
        assert(s.take(k) =~= s);
    } else {
        let tail = split_on(s.skip(k + 1), c);
        assert((seq![s.take(k)] + tail).drop_first() =~= tail);
    }
}

/// Each piece parsed as a `u64`; nothing when one of them fails.
pub open spec fn parse_all(pieces: Seq<Seq<char>>) -> Option<Seq<u64>>
    decreases pieces.len(),
{
    if pieces.len() == 0 {
        Some(seq![])
    } else {
        match (u64_of(pieces[0]), parse_all(pieces.drop_first())) {
            (Some(x), Some(xs)) => Some(seq![x] + xs),
            _ => None,
        }
    }
}

pub open spec fn prepend(p: Seq<u64>, rest: Option<Seq<u64>>) -> Option<Seq<u64>> {
    match rest {
        Some(xs) => Some(p + xs),
        None => None,
    }
}

/// The release part of a normalised version: what comes before the first `-`
/// or `+`, trimmed.
pub open spec fn version_core(v: Seq<char>) -> Seq<char> {
    let n = normalized_version(v);
    trimmed(n.take(find_from(n, is_either('-', '+'), 0)))
}

/// The dot-separated numbers of a version's release part; nothing when that
/// part is empty or one of its pieces is not a `u64`.
pub open spec fn semver_parts(v: Seq<char>) -> Option<Seq<u64>> {
    let core = version_core(v);
    if core.len() == 0 {
        None
    } else {
        parse_all(split_on(core, '.'))
    }
}

/// Parses `1.2.3`, `v1.2`, `1.2.3-beta+7` into their numbers.
pub fn parse_semver_parts(version: &str) -> (r: Option<Vec<u64>>)
    ensures
        match r {
            Some(v) => semver_parts(version@) == Some(v@),
            None => semver_parts(version@) is None,
        },
{
    let normalized = normalize_version(version);
    let ns = normalized.as_str();
    let cut = find_either(ns, '-', '+');
    proof {
        lemma_find_from_bounds(ns@, is_either('-', '+'), 0);
    }
    let core = trim_str(ns.substring_char(0, cut));
    assert(core@ == version_core(version@));
    if core.unicode_len() == 0 {
        return None;
    }
    let mut parts: Vec<u64> = Vec::new();
    let mut rest: &str = core;
    proof {
        match parse_all(split_on(core@, '.')) {
            Some(xs) => assert(parts@ + xs =~= xs),
            None => {},
        }
    }
    loop
        invariant
            semver_parts(version@) == parse_all(split_on(core@, '.')),
            parse_all(split_on(core@, '.')) == prepend(parts@, parse_all(split_on(rest@, '.'))),
        decreases rest@.len(),
    {
        let n = rest.unicode_len();
        let k = find_char(rest, '.');
        proof {
            lemma_find_from_bounds(rest@, is_char('.'), 0);
        }
        let piece = rest.substring_char(0, k);
        let value = parse_u64(piece);
        proof {
            lemma_split_head(rest@, '.');
        }
        let ghost old_parts = parts@;
        let ghost old_rest = rest@;
        let x = match value {
            None => {
                return None;
            },
            Some(x) => x,
        };
        parts.push(x);
        if k >= n {
            proof {
                let sp = split_on(old_rest, '.');
                assert(sp.drop_first() =~= Seq::<Seq<char>>::empty());
                assert(parse_all(sp.drop_first()) == Some(Seq::<u64>::empty()));
                assert(seq![x] + Seq::<u64>::empty() =~= seq![x]);
                assert(parse_all(sp) == Some(seq![x]));
                assert(parts@ =~= old_parts + seq![x]);
            }
            return Some(parts);
        }
        rest = rest.substring_char(k + 1, n);
        proof {
            let tail = parse_all(split_on(rest@, '.'));
            assert(rest@ == old_rest.skip(k + 1));
            match tail {
                Some(xs) => {
                    assert(old_parts + (seq![x] + xs) =~= parts@ + xs);
                },
                None => {},
            }
        }
    }
}

/// Value of a padded version at position `i`: missing parts count as zero.
pub open spec fn part_at(a: Seq<u64>, i: int) -> u64 {
    if 0 <= i < a.len() {
        a[i]
    } else {
        0
    }
}

/// Lexicographic order of `a` and `b` from position `i` on, both padded with
/// zeros to length `n`.
pub open spec fn cmp_from(a: Seq<u64>, b: Seq<u64>, i: int, n: int) -> Ordering
    decreases n - i,
{
    if i >= n {
        Ordering::Equal
    } else if part_at(a, i) < part_at(b, i) {
        Ordering::Less
    } else if part_at(a, i) > part_at(b, i) {
        Ordering::Greater
    } else {
        cmp_from(a, b, i + 1, n)
    }
}

/// Order of two part lists, the shorter padded with zeros.
pub open spec fn cmp_padded(a: Seq<u64>, b: Seq<u64>) -> Ordering {
    cmp_from(a, b, 0, if a.len() >= b.len() { a.len() as int } else { b.len() as int })
}

/// Order of two version strings; nothing when either does not parse.
pub open spec fn version_order(left: Seq<char>, right: Seq<char>) -> Option<Ordering> {
    match (semver_parts(left), semver_parts(right)) {
        (Some(a), Some(b)) => Some(cmp_padded(a, b)),
        _ => None,
    }
}

fn cmp_parts(a: &Vec<u64>, b: &Vec<u64>) -> (r: Ordering)
    ensures
        r == cmp_padded(a@, b@),
{
    let n = if a.len() >= b.len() { a.len() } else { b.len() };
    let mut i: usize = 0;
    while i < n
        invariant
            n == (if a@.len() >= b@.len() { a@.len() as int } else { b@.len() as int }),
            i <= n,
            cmp_padded(a@, b@) == cmp_from(a@, b@, i as int, n as int),
        decreases n - i,
    {
        let x = if i < a.len() { a[i] } else { 0 };
        let y = if i < b.len() { b[i] } else { 0 };
        if x < y {
            return Ordering::Less;
        }
        if x > y {
            return Ordering::Greater;
        }
        i = i + 1;
    }
    Ordering::Equal
}

/// Compares two versions part by part, padding the shorter with zeros.
pub fn compare_versions(left: &str, right: &str) -> (r: Option<Ordering>)
    ensures
        r == version_order(left@, right@),
{
    let a = match parse_semver_parts(left) {
        Some(a) => a,
        None => return None,
    };
    let b = match parse_semver_parts(right) {
        Some(b) => b,
        None => return None,
    };
    Some(cmp_parts(&a, &b))
}

/// Whether `candidate` is a strictly later version than `current`.
pub fn is_newer_version(candidate: &str, current: &str) -> (r: bool)
    ensures
        r == (version_order(candidate@, current@) == Some(Ordering::Greater)),
{
    match compare_versions(candidate, current) {
        Some(Ordering::Greater) => true,
        _ => false,
    }
}

/// Name of the installer asset of a release.
pub open spec fn msi_asset_name() -> Seq<char> {
    "BloxChat.msi"@
}

/// A downloadable file attached to a release.
pub struct GithubReleaseAsset {
    pub name: String,
    pub browser_download_url: String,
}

/// A published release: its tag and its files.
pub struct GithubRelease {
    pub tag_name: String,
    pub assets: Vec<GithubReleaseAsset>,
}

pub open spec fn is_msi(a: GithubReleaseAsset) -> bool {
    eq_ascii_case(a.name@, msi_asset_name())
}

/// Download address of the first asset at or after position `i` named like
/// the installer, ignoring ASCII case.
pub open spec fn msi_url_from(assets: Seq<GithubReleaseAsset>, i: int) -> Option<Seq<char>>
    decreases assets.len() - i,
{
    if i < 0 || i >= assets.len() {
        None
    } else if is_msi(assets[i]) {
        Some(assets[i].browser_download_url@)
    } else {
        msi_url_from(assets, i + 1)
    }
}

/// Download address of the first asset named like the installer, ignoring
/// ASCII case; nothing when the release has none.
pub fn release_msi_url(release: &GithubRelease) -> (r: Option<String>)
    ensures
        opt_view(r) == msi_url_from(release.assets@, 0),
{
    let mut i: usize = 0;
    while i < release.assets.len()
        invariant
            i <= release.assets@.len(),
            msi_url_from(release.assets@, 0) == msi_url_from(release.assets@, i as int),
        decreases release.assets@.len() - i,
    {
        if eq_ignore_ascii_case(release.assets[i].name.as_str(), "BloxChat.msi") {
            return Some(release.assets[i].browser_download_url.clone());
        }
        i = i + 1;
    }
    None
}

/// What to do about the latest release.
#[derive(Debug, PartialEq, Eq)]
pub enum UpdatePlan {
    /// The latest release is not newer than the running version (or a
    /// version does not parse).
    UpToDate,
    /// The latest release is newer but carries no installer.
    MissingInstaller,
    /// Download the installer of `version` from `url` and run it.
    Install { version: String, url: String },
}

/// Decides whether the running version `current_version` should be replaced
/// by the release: only by a strictly newer one that carries an installer.
pub fn plan_update(release: &GithubRelease, current_version: &str) -> (r: UpdatePlan)
    ensures
        ({
            let latest = normalized_version(release.tag_name@);
            let current = normalized_version(current_version@);
            if version_order(latest, current) != Some(Ordering::Greater) {
                r == UpdatePlan::UpToDate
            } else {
                match msi_url_from(release.assets@, 0) {
                    None => r == UpdatePlan::MissingInstaller,
                    Some(u) => r matches UpdatePlan::Install { version, url } && version@ == latest
                        && url@ == u,
                }
            }
        }),
{
    let latest = normalize_version(release.tag_name.as_str());
    let current = normalize_version(current_version);
    if !is_newer_version(latest.as_str(), current.as_str()) {
        return UpdatePlan::UpToDate;
    }
    match release_msi_url(release) {
        None => UpdatePlan::MissingInstaller,
        Some(url) => UpdatePlan::Install { version: latest, url },
    }
}

} // verus!
