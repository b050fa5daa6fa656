//! Properties that hold across the library's operations.
use std::cmp::Ordering;
use vstd::prelude::*;
use crate::text::{
    decimal, digit_char, digit_value, digits_value, all_digits, decimal_value, parse_bounded, dedup, rfind,
    rfind_upto, lemma_rfind_upto, matches_at, starts_with, contains, find, lemma_find_from,
    spec_to_lowercase, all_ascii, ascii_lowercase, lemma_ascii_lowercase_idempotent,
};
use crate::browser::browser_named;
use crate::epub::{close_img_from, spec_clean_xhtml, xhtml_replacements};
use crate::xhtml::{
    lemma_chain_identity, lemma_chain_no_match, lemma_close_closed, lemma_close_identity,
    lemma_close_no_match, lemma_xhtml_chain, lemma_xhtml_pairs_fit, no_match, xhtml_pairs,
};
use crate::service::service_named;
use crate::config::{set_outcome, spec_parallel_jobs, Config, SetError};
use crate::gelbooru::spec_credentials;
use crate::http::spec_effective_proxy;
use crate::desu::spec_parse_slug_id;
use crate::pages::spec_slug_id;
use crate::kodik::{spec_caesar, shift_back, decode_from, decode_attempt, link_of_bytes};
use crate::version::{number_order, byte_order, version_order, spec_parse_version, clean_version};
use crate::order::{before, is_stable_order};
use crate::i18n::{spec_rep, fill_all, Lang};
use crate::patreon::{push_item_outcome, ScanState, file_views};
use crate::listing::{list_chapters, paths_of, first_group, item_chapter_path};

verus! {

// ----------------------------------------------------------------------------
// Settings
// ----------------------------------------------------------------------------

/// Setting `jobs` to a positive number is what the number of parallel
/// downloads then reads, when the environment does not override it.
pub proof fn law_set_jobs_then_read(before: Config, after: Config, rest: Seq<String>, r: Result<String, SetError>)
    requires
        set_outcome(before, after, rest, r),
        rest.len() == 2,
        spec_to_lowercase(rest[0]@) == "jobs"@,
        r is Ok,
    ensures
        parse_bounded(rest[1]@, u32::MAX as nat) matches Some(n) && spec_parallel_jobs(None, after.jobs) == n,
{
}

/// A user id and an API key saved with `set` (neither empty) are the
/// credentials used when the environment gives none.
pub proof fn law_saved_credentials_are_used(
    c0: Config,
    c1: Config,
    c2: Config,
    set_user: Seq<String>,
    set_key: Seq<String>,
    r1: Result<String, SetError>,
    r2: Result<String, SetError>,
)
    requires
        set_outcome(c0, c1, set_user, r1),
        set_outcome(c1, c2, set_key, r2),
        set_user.len() == 2,
        set_key.len() == 2,
        spec_to_lowercase(set_user[0]@) == "user_id"@,
        spec_to_lowercase(set_key[0]@) == "api_key"@,
        set_user[1]@.len() > 0,
        set_key[1]@.len() > 0,
    ensures
        spec_credentials(None, None, c2) == Some((set_user[1]@, set_key[1]@)),
{
    reveal_strlit("jobs");
    reveal_strlit("user_id");
    reveal_strlit("api_key");
    assert("user_id"@ != "jobs"@) by {
        assert("user_id"@.len() != "jobs"@.len());
    }
    assert("api_key"@ != "jobs"@) by {
        assert("api_key"@.len() != "jobs"@.len());
    }
    assert("api_key"@ != "user_id"@) by {
        assert("api_key"@[0] != "user_id"@[0]);
    }
}

// ----------------------------------------------------------------------------
// Proxies
// ----------------------------------------------------------------------------

/// Rewriting a proxy address a second time changes nothing.
pub proof fn law_proxy_rewrite_idempotent(url: Seq<char>)
    ensures
        spec_effective_proxy(spec_effective_proxy(url)) == spec_effective_proxy(url),
{
    reveal_strlit("socks5://");
    reveal_strlit("socks5h://");
    if starts_with(url, "socks5://"@) {
        let once = spec_effective_proxy(url);
        assert(once[6] == 'h');
        assert(!starts_with(once, "socks5://"@)) by {
            if starts_with(once, "socks5://"@) {
                assert(once[0int + 6int] == "socks5://"@[6]);
            }
        }
    }
}

// ----------------------------------------------------------------------------
// Title identifiers
// ----------------------------------------------------------------------------

/// The decimal digits of a number are digits, at least one, and read back
/// as the number.
pub proof fn lemma_decimal_reads_back(n: nat)
    ensures
        all_digits(decimal(n)),
        decimal(n).len() > 0,
        digits_value(decimal(n)) == n,
    decreases n,
{
    if n >= 10 {
        lemma_decimal_reads_back(n / 10);
        let d = decimal(n);
        assert(d.drop_last() == decimal(n / 10));
        assert(d.last() == digit_char(n % 10));
        assert forall|i: int| 0 <= i < d.len() implies crate::text::is_digit(#[trigger] d[i]) by {
            if i < d.len() - 1 {
                assert(d[i] == decimal(n / 10)[i]);
            }
        }
        assert(n / 10 * 10 + n % 10 == n);
        assert(crate::text::digit_value(digit_char(n % 10)) == n % 10);
        assert(digits_value(d) == digits_value(d.drop_last()) * 10 + crate::text::digit_value(d.last()));
    } else {
        let d = decimal(n);
        assert(crate::text::digit_value(digit_char(n)) == n);
        assert(d.drop_last() =~= Seq::<char>::empty());
        assert(digits_value(d) == digits_value(d.drop_last()) * 10 + crate::text::digit_value(d.last()));
    }
}

/// An identifier written as `slug.id` reads back as that slug and id.
pub proof fn law_slug_id_round_trip(slug: Seq<char>, id: u64)
    ensures
        spec_parse_slug_id(spec_slug_id(slug, id)) == Some((slug, id)),
{
    let d = decimal(id as nat);
    let s = spec_slug_id(slug, id);
    lemma_decimal_reads_back(id as nat);
    let p = slug.len() as int;
    assert(s.len() == p + 1 + d.len());
    assert(matches_at(s, seq!['.'], p)) by {
        assert(s[p + 0] == '.');
    }
    lemma_rfind_upto(s, seq!['.'], s.len() - 1);
    assert forall|j: int| p < j <= s.len() - 1 implies !matches_at(s, seq!['.'], j) by {
        assert(s[j] == d[j - p - 1]);
        assert(crate::text::is_digit(d[j - p - 1]));
        if matches_at(s, seq!['.'], j) {
            assert(s[j + 0] == '.');
        }
    }
    assert(rfind(s, seq!['.']) == Some(p));
    assert(s.skip(p + 1) =~= d);
    assert(s.take(p) =~= slug);
    assert(d[0] != '+') by {
        assert(crate::text::is_digit(d[0]));
    }
    assert(decimal_value(d) == Some(digits_value(d)));
}

// ----------------------------------------------------------------------------
// Kodik links
// ----------------------------------------------------------------------------

/// Shifting letters by 0 leaves a text as it is.
pub proof fn law_caesar_zero_shift(text: Seq<char>)
    ensures
        spec_caesar(text, 0) == text,
{
    assert(spec_caesar(text, 0) =~= text) by {
        assert forall|i: int| 0 <= i < text.len() implies #[trigger] spec_caesar(text, 0)[i] == text[i] by {
            let c = text[i];
            if crate::text::is_ascii_alpha(c) {
                let b = crate::kodik::alpha_base(c);
                assert((c as int - b + 26 - 0) % 26 == c as int - b);
            }
        }
    }
}

/// Shifting letters back by `s` and then by `26 - s` gives the text back.
pub proof fn law_caesar_round_trip(text: Seq<char>, s: u8)
    requires
        s <= 26,
    ensures
        spec_caesar(spec_caesar(text, s), (26 - s) as u8) == text,
{
    let once = spec_caesar(text, s);
    assert(spec_caesar(once, (26 - s) as u8) =~= text) by {
        assert forall|i: int| 0 <= i < text.len() implies #[trigger] spec_caesar(once, (26 - s) as u8)[i] == text[i] by {
            let c = text[i];
            if crate::text::is_ascii_alpha(c) {
                let b = crate::kodik::alpha_base(c);
                let pos = c as int - b;
                let p1 = (pos + 26 - s) % 26;
                let c1 = (b + p1) as char;
                assert(once[i] == c1);
                assert(crate::text::is_ascii_alpha(c1));
                assert(crate::kodik::alpha_base(c1) == b);
                assert((p1 + 26 - (26 - s)) % 26 == pos) by (nonlinear_arith)
                    requires
                        0 <= pos < 26,
                        0 <= s <= 26,
                        p1 == (pos + 26 - s) % 26,
                {
                }
            }
        }
    }
}

/// A decoded video link starts with `https:` and names an `.mp4`.
pub proof fn law_decoded_link_shape(encoded: Seq<char>, shift: int)
    ensures
        decode_from(encoded, shift) matches Some(l) ==> starts_with(l, "https:"@) && contains(l, ".mp4"@),
    decreases 27 - shift,
{
    if 0 <= shift <= 26 {
        match decode_attempt(encoded, shift as u8) {
            Some(l) => {
                reveal_strlit("https:");
                match crate::kodik::base64_decoded(crate::kodik::padded(spec_caesar(encoded, shift as u8))) {
                    Ok(bytes) => {
                        let t = vstd::utf8::decode_utf8(bytes);
                        if !starts_with(t, "https:"@) {
                            assert(starts_with("https:"@ + t, "https:"@)) by {
                                assert forall|k: int| 0 <= k < "https:"@.len() implies #[trigger] ("https:"@ + t)[0 + k] == "https:"@[k] by {
                                }
                            }
                        }
                    },
                    Err(_) => {},
                }
            },
            None => {
                law_decoded_link_shape(encoded, shift + 1);
            },
        }
    }
}

// ----------------------------------------------------------------------------
// Versions
// ----------------------------------------------------------------------------

/// The opposite of an ordering.
pub open spec fn flipped(o: Ordering) -> Ordering {
    match o {
        Ordering::Less => Ordering::Greater,
        Ordering::Equal => Ordering::Equal,
        Ordering::Greater => Ordering::Less,
    }
}

proof fn lemma_number_order(a: Seq<u64>, b: Seq<u64>)
    ensures
        number_order(a, a) == Ordering::Equal,
        number_order(b, a) == flipped(number_order(a, b)),
    decreases a.len(),
{
    if a.len() > 0 && b.len() > 0 {
        lemma_number_order(a.drop_first(), b.drop_first());
    } else if a.len() > 0 {
        lemma_number_order(a.drop_first(), b);
    }
}

proof fn lemma_byte_order(a: Seq<u8>, b: Seq<u8>)
    ensures
        byte_order(a, a) == Ordering::Equal,
        byte_order(b, a) == flipped(byte_order(a, b)),
    decreases a.len(),
{
    if a.len() > 0 && b.len() > 0 {
        lemma_byte_order(a.drop_first(), b.drop_first());
    } else if a.len() > 0 {
        lemma_byte_order(a.drop_first(), b);
    }
}

/// A version compares equal to itself.
pub proof fn law_version_order_reflexive(v: Seq<char>)
    ensures
        version_order(v, v) == Ordering::Equal,
{
    lemma_number_order(spec_parse_version(v), spec_parse_version(v));
    lemma_byte_order(
        vstd::utf8::encode_utf8(clean_version(v)),
        vstd::utf8::encode_utf8(clean_version(v)),
    );
}

/// Swapping two versions flips how they compare.
pub proof fn law_version_order_antisymmetric(v1: Seq<char>, v2: Seq<char>)
    ensures
        version_order(v2, v1) == flipped(version_order(v1, v2)),
{
    lemma_number_order(spec_parse_version(v1), spec_parse_version(v2));
    lemma_byte_order(
        vstd::utf8::encode_utf8(clean_version(v1)),
        vstd::utf8::encode_utf8(clean_version(v2)),
    );
}

// ----------------------------------------------------------------------------
// Lists without repeats
// ----------------------------------------------------------------------------

/// No two places of `s` hold the same item.
pub open spec fn distinct<T>(s: Seq<T>) -> bool {
    forall|i: int, j: int| 0 <= i < j < s.len() ==> s[i] != s[j]
}

/// Keeping each item the first time it appears leaves no repeats and loses
/// no item.
pub proof fn law_dedup_distinct_and_complete(s: Seq<Seq<char>>)
    ensures
        distinct(dedup(s)),
        forall|x: Seq<char>| #[trigger] dedup(s).contains(x) <==> s.contains(x),
    decreases s.len(),
{
    if s.len() > 0 {
        let prev = s.drop_last();
        law_dedup_distinct_and_complete(prev);
        let d = dedup(prev);
        let ds = dedup(s);
        assert forall|x: Seq<char>| #[trigger] ds.contains(x) <==> s.contains(x) by {
            if s.contains(x) {
                let k = choose|k: int| 0 <= k < s.len() && s[k] == x;
                if k < s.len() - 1 {
                    assert(prev[k] == x);
                    assert(prev.contains(x));
                    assert(d.contains(x));
                    let m = choose|m: int| 0 <= m < d.len() && d[m] == x;
                    if d.contains(s.last()) {
                        assert(ds[m] == x);
                    } else {
                        assert(ds[m] == x);
                    }
                } else {
                    if d.contains(s.last()) {
                        assert(ds.contains(x));
                    } else {
                        assert(ds[d.len() as int] == x);
                    }
                }
            }
            if ds.contains(x) {
                let k = choose|k: int| 0 <= k < ds.len() && ds[k] == x;
                if k < d.len() {
                    assert(d[k] == x);
                    assert(d.contains(x));
                    assert(prev.contains(x));
                    let m = choose|m: int| 0 <= m < prev.len() && prev[m] == x;
                    assert(s[m] == x);
                } else {
                    assert(s[s.len() - 1] == x);
                }
            }
        }
    }
}

// ----------------------------------------------------------------------------
// Ordering by key
// ----------------------------------------------------------------------------

/// Along a stable order, keys never decrease.
pub proof fn law_stable_order_sorted(keys: Seq<i128>, r: Seq<usize>)
    requires
        is_stable_order(keys, r),
    ensures
        forall|a: int, b: int| 0 <= a < b < r.len() ==> keys[#[trigger] r[a] as int] <= keys[#[trigger] r[b] as int],
{
    assert forall|a: int, b: int| 0 <= a < b < r.len() implies keys[#[trigger] r[a] as int] <= keys[#[trigger] r[b] as int] by {
        assert(before(keys, r[a] as int, r[b] as int));
    }
}

/// The stable order of a list of keys is unique: items are laid out by key,
/// ties in their first order, and nothing else is possible.
pub proof fn law_stable_order_unique(keys: Seq<i128>, r1: Seq<usize>, r2: Seq<usize>)
    requires
        is_stable_order(keys, r1),
        is_stable_order(keys, r2),
    ensures
        r1 == r2,
{
    if r1 != r2 {
        assert(!(r1 =~= r2));
        let i = choose|i: int| 0 <= i < r1.len() && r1[i] != r2[i] && forall|j: int| 0 <= j < i ==> r1[j] == r2[j];
        assert(exists|i: int| 0 <= i < r1.len() && r1[i] != r2[i]);
        let w = choose|i: int| 0 <= i < r1.len() && r1[i] != r2[i];
        lemma_first_difference(r1, r2, w);
        let f = choose|i: int| 0 <= i < r1.len() && r1[i] != r2[i] && forall|j: int| 0 <= j < i ==> r1[j] == r2[j];
        let a = r1[f];
        let b = r2[f];
        assert(r2.contains(a));
        let ja = choose|j: int| 0 <= j < r2.len() && r2[j] == a;
        assert(r1.contains(b));
        let jb = choose|j: int| 0 <= j < r1.len() && r1[j] == b;
        if ja < f {
            assert(r1[ja] == a);
            assert(before(keys, r1[ja] as int, r1[f] as int));
        }
        if jb < f {
            assert(r2[jb] == b);
            assert(before(keys, r2[jb] as int, r2[f] as int));
        }
        assert(ja > f);
        assert(jb > f);
        assert(before(keys, r2[f] as int, r2[ja] as int));
        assert(before(keys, r1[f] as int, r1[jb] as int));
    }
}

proof fn lemma_first_difference(r1: Seq<usize>, r2: Seq<usize>, w: int)
    requires
        0 <= w < r1.len(),
        r1.len() == r2.len(),
        r1[w] != r2[w],
    ensures
        exists|i: int| 0 <= i < r1.len() && r1[i] != r2[i] && forall|j: int| 0 <= j < i ==> r1[j] == r2[j],
    decreases w,
{
    if forall|j: int| 0 <= j < w ==> r1[j] == r2[j] {
    } else {
        let v = choose|j: int| 0 <= j < w && r1[j] != r2[j];
        lemma_first_difference(r1, r2, v);
    }
}

// ----------------------------------------------------------------------------
// Messages
// ----------------------------------------------------------------------------

/// In English a message is its own text, and a message with no arguments
/// is left as it is.
pub proof fn law_english_messages_unchanged(en: Seq<char>)
    ensures
        spec_rep(Lang::En, en) == en,
        fill_all(en, Seq::empty()) == en,
{
}

// ----------------------------------------------------------------------------
// Scanning a creator's posts
// ----------------------------------------------------------------------------

/// A scan is consistent: the names met are all different, the files to
/// download have different names, and each of those was met.
pub open spec fn scan_wf(st: ScanState) -> bool {
    let seen = crate::text::string_views(st.seen@);
    let files = file_views(st.to_download@);
    &&& distinct(seen)
    &&& distinct(files.map_values(|f: (Seq<char>, Seq<char>)| f.0))
    &&& forall|i: int| 0 <= i < files.len() ==> seen.contains(#[trigger] files[i].0)
}

/// Taking in a file keeps a scan consistent: no name is queued twice.
pub proof fn law_scan_keeps_names_distinct(before: ScanState, after: ScanState, filename: Seq<char>, url: Seq<char>, exists: bool)
    requires
        scan_wf(before),
        push_item_outcome(before, after, filename, url, exists),
    ensures
        scan_wf(after),
{
    let safe = crate::patreon::spec_sanitize_filename(filename);
    let seen0 = crate::text::string_views(before.seen@);
    let files0 = file_views(before.to_download@);
    if url.len() == 0 || safe.len() == 0 || seen0.contains(safe) {
    } else {
        let seen1 = crate::text::string_views(after.seen@);
        let files1 = file_views(after.to_download@);
        assert(seen1 == seen0.push(safe));
        assert forall|i: int, j: int| 0 <= i < j < seen1.len() implies seen1[i] != seen1[j] by {
            if j == seen1.len() - 1 {
                assert(seen1[i] == seen0[i]);
                if seen0[i] == safe {
                    assert(seen0.contains(safe));
                }
            } else {
                assert(seen1[i] == seen0[i] && seen1[j] == seen0[j]);
            }
        }
        assert forall|i: int| 0 <= i < files1.len() implies seen1.contains(#[trigger] files1[i].0) by {
            if i < files0.len() {
                assert(files1[i] == files0[i]);
                assert(seen0.contains(files0[i].0));
                let k = choose|k: int| 0 <= k < seen0.len() && seen0[k] == files0[i].0;
                assert(seen1[k] == files0[i].0);
            } else {
                assert(files1[i].0 == safe);
                assert(seen1[seen0.len() as int] == safe);
            }
        }
        let n0 = files0.map_values(|f: (Seq<char>, Seq<char>)| f.0);
        let n1 = files1.map_values(|f: (Seq<char>, Seq<char>)| f.0);
        assert forall|i: int, j: int| 0 <= i < j < n1.len() implies n1[i] != n1[j] by {
            if !exists {
                if j == n1.len() - 1 {
                    assert(n1[j] == safe);
                    assert(n1[i] == n0[i]);
                    assert(seen0.contains(files0[i].0));
                } else {
                    assert(n1[i] == n0[i] && n1[j] == n0[j]);
                }
            } else {
                assert(files1 == files0);
                assert(n1[i] == n0[i] && n1[j] == n0[j]);
            }
        }
    }
}

// ----------------------------------------------------------------------------
// Chapter lists
// ----------------------------------------------------------------------------

/// A chapter list never names a path twice.
pub proof fn law_chapter_paths_distinct(ms: Seq<Seq<Option<Seq<char>>>>)
    ensures
        distinct(paths_of(list_chapters(ms))),
    decreases ms.len(),
{
    if ms.len() > 0 {
        law_chapter_paths_distinct(ms.drop_last());
        let prev = list_chapters(ms.drop_last());
        let pp = paths_of(prev);
        match first_group(ms.last()) {
            Some(li) => match item_chapter_path(li) {
                Some(p) => if !pp.contains(p) {
                    let now = paths_of(list_chapters(ms));
                    assert forall|i: int, j: int| 0 <= i < j < now.len() implies now[i] != now[j] by {
                        if j == now.len() - 1 {
                            assert(now[i] == pp[i]);
                            assert(now[j] == p);
                        } else {
                            assert(now[i] == pp[i] && now[j] == pp[j]);
                        }
                    }
                },
                None => {},
            },
            None => {},
        }
    }
}

// ----------------------------------------------------------------------------
// Names in any case
// ----------------------------------------------------------------------------

/// A browser name in ASCII and its lower-case form name the same browser,
/// and a service name or alias and its lower-case form the same service:
/// `resolve_browser` and `resolve_service` give such names the result of
/// their ASCII lower-case form.
pub proof fn law_names_ignore_ascii_case(name: Seq<char>)
    requires
        all_ascii(name),
    ensures
        all_ascii(ascii_lowercase(name)),
        browser_named(ascii_lowercase(ascii_lowercase(name))) == browser_named(ascii_lowercase(name)),
        service_named(ascii_lowercase(ascii_lowercase(name))) == service_named(ascii_lowercase(name)),
{
    lemma_ascii_lowercase_idempotent(name);
}

// ----------------------------------------------------------------------------
// XHTML clean-up
// ----------------------------------------------------------------------------

/// Cleaning a chapter's HTML a second time changes nothing: the clean text
/// holds none of the replaced patterns, and its image tags are closed.
pub proof fn law_clean_xhtml_idempotent(html: Seq<char>)
    ensures
        spec_clean_xhtml(spec_clean_xhtml(html)) == spec_clean_xhtml(html),
{
    let ps = xhtml_pairs();
    lemma_xhtml_pairs_fit();
    lemma_xhtml_chain(html);
    let w = xhtml_replacements(html);
    lemma_chain_no_match(html, ps);
    let y = close_img_from(w, 0);
    assert(w.skip(0) =~= w);
    assert forall|k: int| 0 <= k < ps.len() implies no_match(y, (#[trigger] ps[k]).0) by {
        lemma_close_no_match(w, 0, ps[k].0);
    }
    lemma_chain_identity(y, ps);
    lemma_xhtml_chain(y);
    lemma_close_closed(w, 0);
    assert(y.skip(0) =~= y);
    lemma_close_identity(y, 0);
}

// ----------------------------------------------------------------------------
// Versions compared by their numbers
// ----------------------------------------------------------------------------

proof fn lemma_number_order_common_prefix(a: Seq<u64>, b: Seq<u64>, k: int)
    requires
        0 <= k <= a.len(),
        k <= b.len(),
        forall|j: int| 0 <= j < k ==> a[j] == b[j],
    ensures
        number_order(a, b) == number_order(a.skip(k), b.skip(k)),
    decreases k,
{
    if k > 0 {
        assert(a[0] == b[0]);
        let (a1, b1) = (a.drop_first(), b.drop_first());
        assert forall|j: int| 0 <= j < k - 1 implies a1[j] == b1[j] by {
            assert(a[j + 1] == b[j + 1]);
        }
        lemma_number_order_common_prefix(a1, b1, k - 1);
        assert(a1.skip(k - 1) =~= a.skip(k));
        assert(b1.skip(k - 1) =~= b.skip(k));
    } else {
        assert(a.skip(0) =~= a);
        assert(b.skip(0) =~= b);
    }
}

/// Two versions that both hold numbers compare by those numbers, part by
/// part: after `k` equal parts, the version with the larger next number is
/// the newer, a version whose numbers run out first is the older, and two
/// that run out together are equal.
pub proof fn law_versions_compare_by_first_difference(v1: Seq<char>, v2: Seq<char>, k: int)
    requires
        spec_parse_version(v1).len() > 0,
        spec_parse_version(v2).len() > 0,
        0 <= k <= spec_parse_version(v1).len(),
        k <= spec_parse_version(v2).len(),
        forall|j: int| 0 <= j < k ==> spec_parse_version(v1)[j] == spec_parse_version(v2)[j],
    ensures
        k < spec_parse_version(v1).len() && k < spec_parse_version(v2).len()
            && spec_parse_version(v1)[k] > spec_parse_version(v2)[k] ==> version_order(v1, v2) == Ordering::Greater,
        k < spec_parse_version(v1).len() && k < spec_parse_version(v2).len()
            && spec_parse_version(v1)[k] < spec_parse_version(v2)[k] ==> version_order(v1, v2) == Ordering::Less,
        k == spec_parse_version(v1).len() && k < spec_parse_version(v2).len() ==> version_order(v1, v2)
            == Ordering::Less,
        k < spec_parse_version(v1).len() && k == spec_parse_version(v2).len() ==> version_order(v1, v2)
            == Ordering::Greater,
        k == spec_parse_version(v1).len() && k == spec_parse_version(v2).len() ==> version_order(v1, v2)
            == Ordering::Equal,
{
    let p1 = spec_parse_version(v1);
    let p2 = spec_parse_version(v2);
    lemma_number_order_common_prefix(p1, p2, k);
    let (r1, r2) = (p1.skip(k), p2.skip(k));
    if k < p1.len() {
        assert(r1[0] == p1[k]);
    }
    if k < p2.len() {
        assert(r2[0] == p2[k]);
    }
}

} // verus!
