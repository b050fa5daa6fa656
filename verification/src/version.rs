//! Release versions: reading version strings, ordering them, and picking the
//! release asset built for a platform.
use std::cmp::Ordering;
use vstd::prelude::*;
use vstd::string::StringSliceAdditionalSpecFns;
use crate::text::{
    chars_of, contains, contains_exec, eq_chars, idx, parse_bounded, parse_decimal, push_str,
    strip_prefix_char, strip_prefix_char_vec, string_of, trim, trim_vec, opt_u64,
};

verus! {

/// A file attached to a release.
pub struct ReleaseAsset {
    pub name: String,
    pub browser_download_url: String,
    pub size: Option<u64>,
}

/// A published release.
pub struct GithubRelease {
    pub tag_name: String,
    pub name: Option<String>,
    pub html_url: String,
    pub body: Option<String>,
    pub assets: Vec<ReleaseAsset>,
}

/// Separates the numbers of a version.
pub open spec fn is_version_sep(c: char) -> bool {
    c == '.' || c == '-' || c == '+'
}

/// The pieces of `s` between separators, empty ones included (as
/// `str::split` with a character predicate).
pub open spec fn split_version(s: Seq<char>) -> Seq<Seq<char>>
    decreases s.len(),
{
    if s.len() == 0 {
        seq![Seq::empty()]
    } else {
        let parts = split_version(s.drop_last());
        let c = s.last();
        if is_version_sep(c) {
            parts.push(Seq::empty())
        } else {
            parts.update(parts.len() - 1, parts.last().push(c))
        }
    }
}

/// The pieces that read as `u64` numbers, in order; the others are skipped.
pub open spec fn piece_numbers(parts: Seq<Seq<char>>) -> Seq<u64>
    decreases parts.len(),
{
    if parts.len() == 0 {
        Seq::empty()
    } else {
        let rest = piece_numbers(parts.drop_last());
        match parse_bounded(parts.last(), 0xFFFF_FFFF_FFFF_FFFF) {
            Some(n) => rest.push(n as u64),
            None => rest,
        }
    }
}

/// A version string without surrounding whitespace and one leading `v`.
pub open spec fn clean_version(v: Seq<char>) -> Seq<char> {
    strip_prefix_char(trim(v), 'v')
}

/// The numbers of a version string such as `v1.2.3-rc+4`: trimmed, one
/// leading `v` dropped, split at `.`, `-` and `+`, non-numbers skipped.
pub open spec fn spec_parse_version(v: Seq<char>) -> Seq<u64> {
    piece_numbers(split_version(clean_version(v)))
}

proof fn lemma_split_nonempty(s: Seq<char>)
    ensures
        split_version(s).len() >= 1,
    decreases s.len(),
{
    if s.len() > 0 {
        lemma_split_nonempty(s.drop_last());
    }
}

/// The numbers of a version string.
pub fn parse_version(v: &str) -> (nums: Vec<u64>)
    ensures
        nums@ == spec_parse_version(v@),
{
    let raw = chars_of(v);
    let trimmed = trim_vec(raw.as_slice());
    let clean = strip_prefix_char_vec(trimmed.as_slice(), 'v');
    let ghost s = clean@;
    let mut nums: Vec<u64> = Vec::new();
    let mut cur: Vec<char> = Vec::new();
    let mut i: usize = 0;
    proof {
        lemma_split_nonempty(s.take(0));
    }
    while i < clean.len()
        invariant
            i <= s.len(),
            s == clean@,
            split_version(s.take(i as int)).len() >= 1,
            nums@ == piece_numbers(split_version(s.take(i as int)).drop_last()),
            cur@ == split_version(s.take(i as int)).last(),
        decreases s.len() - i,
    {
        let c = clean[i];
        let ghost parts = split_version(s.take(i as int));
        assert(s.take(i + 1).drop_last() == s.take(i as int));
        if c == '.' || c == '-' || c == '+' {
            assert(split_version(s.take(i + 1)).drop_last() == parts);
            assert(parts.drop_last().push(parts.last()) == parts);
            match parse_decimal(cur.as_slice(), 0xFFFF_FFFF_FFFF_FFFF) {
                Some(n) => nums.push(n),
                None => {},
            }
            cur = Vec::new();
        } else {
            let ghost next = split_version(s.take(i + 1));
            assert(next.drop_last() == parts.drop_last());
            cur.push(c);
        }
        i = i + 1;
        proof {
            lemma_split_nonempty(s.take(i as int));
        }
    }
    assert(s.take(s.len() as int) == s);
    let ghost parts = split_version(s);
    assert(parts.drop_last().push(parts.last()) == parts);
    match parse_decimal(cur.as_slice(), 0xFFFF_FFFF_FFFF_FFFF) {
        Some(n) => nums.push(n),
        None => {},
    }
    nums
}

/// Lexicographic order of number sequences (as `Vec<u64>`'s `Ord`).
pub open spec fn number_order(a: Seq<u64>, b: Seq<u64>) -> Ordering
    decreases a.len(),
{
    if a.len() == 0 {
        if b.len() == 0 {
            Ordering::Equal
        } else {
            Ordering::Less
        }
    } else if b.len() == 0 {
        Ordering::Greater
    } else if a[0] < b[0] {
        Ordering::Less
    } else if a[0] > b[0] {
        Ordering::Greater
    } else {
        number_order(a.drop_first(), b.drop_first())
    }
}

/// Lexicographic order of byte sequences (as `str`'s `Ord` on the UTF-8
/// bytes).
pub open spec fn byte_order(a: Seq<u8>, b: Seq<u8>) -> Ordering
    decreases a.len(),
{
    if a.len() == 0 {
        if b.len() == 0 {
            Ordering::Equal
        } else {
            Ordering::Less
        }
    } else if b.len() == 0 {
        Ordering::Greater
    } else if a[0] < b[0] {
        Ordering::Less
    } else if a[0] > b[0] {
        Ordering::Greater
    } else {
        byte_order(a.drop_first(), b.drop_first())
    }
}

fn number_order_exec(a: &[u64], b: &[u64]) -> (r: Ordering)
    ensures
        r == number_order(a@, b@),
{
    let mut i: usize = 0;
    assert(a@.skip(0) == a@);
    assert(b@.skip(0) == b@);
    loop
        invariant
            i <= a@.len(),
            i <= b@.len(),
            number_order(a@, b@) == number_order(a@.skip(idx(i)), b@.skip(idx(i))),
        decreases a@.len() - i,
    {
        if i == a.len() {
            if i == b.len() {
                return Ordering::Equal;
            } else {
                return Ordering::Less;
            }
        } else if i == b.len() {
            return Ordering::Greater;
        } else if a[i] < b[i] {
            return Ordering::Less;
        } else if a[i] > b[i] {
            return Ordering::Greater;
        }
        assert(a@.skip(idx(i)).drop_first() == a@.skip(idx(i) + 1));
        assert(b@.skip(idx(i)).drop_first() == b@.skip(idx(i) + 1));
        i = i + 1;
    }
}

fn byte_order_exec(a: &[u8], b: &[u8]) -> (r: Ordering)
    ensures
        r == byte_order(a@, b@),
{
    let mut i: usize = 0;
    assert(a@.skip(0) == a@);
    assert(b@.skip(0) == b@);
    loop
        invariant
            i <= a@.len(),
            i <= b@.len(),
            byte_order(a@, b@) == byte_order(a@.skip(idx(i)), b@.skip(idx(i))),
        decreases a@.len() - i,
    {
        if i == a.len() {
            if i == b.len() {
                return Ordering::Equal;
            } else {
                return Ordering::Less;
            }
        } else if i == b.len() {
            return Ordering::Greater;
        } else if a[i] < b[i] {
            return Ordering::Less;
        } else if a[i] > b[i] {
            return Ordering::Greater;
        }
        assert(a@.skip(idx(i)).drop_first() == a@.skip(idx(i) + 1));
        assert(b@.skip(idx(i)).drop_first() == b@.skip(idx(i) + 1));
        i = i + 1;
    }
}

/// How two version strings compare: by their numbers when both have some,
/// else by their cleaned text's UTF-8 bytes.
pub open spec fn version_order(v1: Seq<char>, v2: Seq<char>) -> Ordering {
    let p1 = spec_parse_version(v1);
    let p2 = spec_parse_version(v2);
    if p1.len() != 0 && p2.len() != 0 {
        number_order(p1, p2)
    } else {
        byte_order(vstd::utf8::encode_utf8(clean_version(v1)), vstd::utf8::encode_utf8(clean_version(v2)))
    }
}

fn clean_version_string(v: &str) -> (r: String)
    ensures
        r@ == clean_version(v@),
{
    let raw = chars_of(v);
    let trimmed = trim_vec(raw.as_slice());
    let clean = strip_prefix_char_vec(trimmed.as_slice(), 'v');
    string_of(clean.as_slice())
}

/// Compares two version strings: numerically, part by part, when both hold
/// numbers (`0.0.5 < 0.0.7`, `0.1.0 > 0.0.9`, `v0.0.5 < 0.0.7`); otherwise by
/// the trimmed text without a leading `v`.
pub fn compare_versions(v1: &str, v2: &str) -> (r: Ordering)
    ensures
        r == version_order(v1@, v2@),
{
    let p1 = parse_version(v1);
    let p2 = parse_version(v2);
    if p1.len() != 0 && p2.len() != 0 {
        number_order_exec(p1.as_slice(), p2.as_slice())
    } else {
        let c1 = clean_version_string(v1);
        let c2 = clean_version_string(v2);
        byte_order_exec(c1.as_str().as_bytes(), c2.as_str().as_bytes())
    }
}

/// The names a platform's binary is published under.
pub open spec fn exact_asset_name(name: Seq<char>, platform: Seq<char>) -> bool {
    name == "nymphalis-"@ + platform || name == "nymphalis-"@ + platform + ".exe"@
}

/// The first asset at or after `i` with an exact name for `platform`.
pub open spec fn first_exact(assets: Seq<ReleaseAsset>, platform: Seq<char>, i: int) -> Option<int>
    decreases assets.len() - i,
{
    if i < 0 || i >= assets.len() {
        None
    } else if exact_asset_name(assets[i].name@, platform) {
        Some(i)
    } else {
        first_exact(assets, platform, i + 1)
    }
}

/// The first asset at or after `i` whose name holds `platform`.
pub open spec fn first_containing(assets: Seq<ReleaseAsset>, platform: Seq<char>, i: int) -> Option<int>
    decreases assets.len() - i,
{
    if i < 0 || i >= assets.len() {
        None
    } else if contains(assets[i].name@, platform) {
        Some(i)
    } else {
        first_containing(assets, platform, i + 1)
    }
}

/// The asset chosen for `platform`: the first with an exact name, else the
/// first whose name holds the platform.
pub open spec fn platform_asset_index(assets: Seq<ReleaseAsset>, platform: Seq<char>) -> Option<int> {
    match first_exact(assets, platform, 0) {
        Some(i) => Some(i),
        None => first_containing(assets, platform, 0),
    }
}

/// The asset built for `platform`: the first named `nymphalis-<platform>` or
/// `nymphalis-<platform>.exe`, else the first whose name contains the
/// platform, else none.
pub fn find_platform_asset<'a>(assets: &'a [ReleaseAsset], platform: &str) -> (r: Option<&'a ReleaseAsset>)
    ensures
        match platform_asset_index(assets@, platform@) {
            Some(i) => r == Some(&assets@[i]),
            None => r is None,
        },
{
    let mut exact_name: Vec<char> = Vec::new();
    push_str(&mut exact_name, "nymphalis-");
    push_str(&mut exact_name, platform);
    let mut exact_exe: Vec<char> = Vec::new();
    push_str(&mut exact_exe, "nymphalis-");
    push_str(&mut exact_exe, platform);
    push_str(&mut exact_exe, ".exe");
    let mut i: usize = 0;
    while i < assets.len()
        invariant
            i <= assets@.len(),
            exact_name@ == "nymphalis-"@ + platform@,
            exact_exe@ == "nymphalis-"@ + platform@ + ".exe"@,
            first_exact(assets@, platform@, 0) == first_exact(assets@, platform@, idx(i)),
        decreases assets@.len() - i,
    {
        let n = chars_of(assets[i].name.as_str());
        if eq_chars(n.as_slice(), exact_name.as_slice()) || eq_chars(n.as_slice(), exact_exe.as_slice()) {
            return Some(&assets[i]);
        }
        i = i + 1;
    }
    let p = chars_of(platform);
    let mut j: usize = 0;
    while j < assets.len()
        invariant
            j <= assets@.len(),
            p@ == platform@,
            first_exact(assets@, platform@, 0) is None,
            first_containing(assets@, platform@, 0) == first_containing(assets@, platform@, idx(j)),
        decreases assets@.len() - j,
    {
        let n = chars_of(assets[j].name.as_str());
        if contains_exec(n.as_slice(), p.as_slice()) {
            return Some(&assets[j]);
        }
        j = j + 1;
    }
    None
}

} // verus!
