//! Character-level string helpers shared by the parsers.
//!
//! Strings are handled as sequences of `char`s: positions and lengths below
//! count characters, and every search matches whole characters.
use vstd::prelude::*;
use vstd::utf8::{char_is_scalar, encode_scalar, encode_utf8};

verus! {

// ----------------------------------------------------------------------------
// Searching
// ----------------------------------------------------------------------------

/// `pat` occurs in `s` starting at position `i`.
pub open spec fn matches_at(s: Seq<char>, pat: Seq<char>, i: int) -> bool {
    &&& 0 <= i
    &&& i + pat.len() <= s.len()
    &&& forall|k: int| 0 <= k < pat.len() ==> #[trigger] s[i + k] == pat[k]
}

/// The first position at or after `i` where `pat` occurs in `s`.
pub open spec fn find_from(s: Seq<char>, pat: Seq<char>, i: int) -> Option<int>
    decreases s.len() - i,
{
    if i < 0 || i + pat.len() > s.len() {
        None
    } else if matches_at(s, pat, i) {
        Some(i)
    } else {
        find_from(s, pat, i + 1)
    }
}

/// The first position where `pat` occurs in `s` (as `str::find`).
pub open spec fn find(s: Seq<char>, pat: Seq<char>) -> Option<int> {
    find_from(s, pat, 0)
}

/// The last position at or before `i` where `pat` occurs in `s`.
pub open spec fn rfind_upto(s: Seq<char>, pat: Seq<char>, i: int) -> Option<int>
    decreases i + 1,
{
    if i < 0 {
        None
    } else if matches_at(s, pat, i) {
        Some(i)
    } else {
        rfind_upto(s, pat, i - 1)
    }
}

/// The last position where `pat` occurs in `s` (as `str::rfind`).
pub open spec fn rfind(s: Seq<char>, pat: Seq<char>) -> Option<int> {
    rfind_upto(s, pat, s.len() - pat.len())
}

/// `s` holds `pat` somewhere.
pub open spec fn contains(s: Seq<char>, pat: Seq<char>) -> bool {
    find(s, pat) is Some
}

/// `s` starts with `pat`.
pub open spec fn starts_with(s: Seq<char>, pat: Seq<char>) -> bool {
    matches_at(s, pat, 0)
}

/// `s` ends with `pat`.
pub open spec fn ends_with(s: Seq<char>, pat: Seq<char>) -> bool {
    pat.len() <= s.len() && matches_at(s, pat, s.len() - pat.len())
}

/// A position held as a `usize`, seen as an integer.
pub open spec fn opt_int(o: Option<usize>) -> Option<int> {
    match o {
        Some(k) => Some(k as int),
        None => None,
    }
}

/// What `find_from` promises of its result.
pub proof fn lemma_find_from(s: Seq<char>, pat: Seq<char>, i: int)
    requires
        0 <= i,
    ensures
        match find_from(s, pat, i) {
            Some(k) => i <= k && matches_at(s, pat, k) && forall|j: int|
                i <= j < k ==> !matches_at(s, pat, j),
            None => forall|j: int| i <= j ==> !matches_at(s, pat, j),
        },
    decreases s.len() - i,
{
    if i + pat.len() > s.len() {
    } else if matches_at(s, pat, i) {
    } else {
        lemma_find_from(s, pat, i + 1);
    }
}

/// What `rfind_upto` promises of its result.
pub proof fn lemma_rfind_upto(s: Seq<char>, pat: Seq<char>, i: int)
    ensures
        match rfind_upto(s, pat, i) {
            Some(k) => 0 <= k <= i && matches_at(s, pat, k) && forall|j: int|
                k < j <= i ==> !matches_at(s, pat, j),
            None => forall|j: int| j <= i ==> !matches_at(s, pat, j),
        },
    decreases i + 1,
{
    if i < 0 {
    } else if matches_at(s, pat, i) {
    } else {
        lemma_rfind_upto(s, pat, i - 1);
    }
}

/// Whether `pat` occurs in `s` at position `i`.
pub fn matches_at_exec(s: &[char], pat: &[char], i: usize) -> (b: bool)
    ensures
        b == matches_at(s@, pat@, i as int),
{
    let n = s.len();
    if pat.len() > n || i > n - pat.len() {
        return false;
    }
    let mut k: usize = 0;
    while k < pat.len()
        invariant
            n == s@.len(),
            i + pat@.len() <= n,
            k <= pat@.len(),
            forall|j: int| 0 <= j < k ==> #[trigger] s@[i + j] == pat@[j],
        decreases pat@.len() - k,
    {
        if s[i + k] != pat[k] {
            assert(s@[i + k as int] != pat@[k as int]);
            return false;
        }
        k = k + 1;
    }
    true
}

/// The first position at or after `from` where `pat` occurs in `s`.
pub fn find_from_exec(s: &[char], pat: &[char], from: usize) -> (r: Option<usize>)
    ensures
        opt_int(r) == find_from(s@, pat@, from as int),
{
    let mut i = from;
    while i <= s.len() && pat.len() <= s.len() - i
        invariant
            from <= i,
            find_from(s@, pat@, from as int) == find_from(s@, pat@, i as int),
        decreases s@.len() + 1 - i,
    {
        if matches_at_exec(s, pat, i) {
            return Some(i);
        }
        i = i + 1;
    }
    None
}

/// The first position where `pat` occurs in `s`.
pub fn find_exec(s: &[char], pat: &[char]) -> (r: Option<usize>)
    ensures
        opt_int(r) == find(s@, pat@),
{
    find_from_exec(s, pat, 0)
}

/// The last position where `pat` occurs in `s`.
pub fn rfind_exec(s: &[char], pat: &[char]) -> (r: Option<usize>)
    ensures
        opt_int(r) == rfind(s@, pat@),
{
    if pat.len() > s.len() {
        return None;
    }
    let mut i = s.len() - pat.len();
    loop
        invariant
            i <= s@.len() - pat@.len(),
            rfind(s@, pat@) == rfind_upto(s@, pat@, i as int),
        decreases i,
    {
        if matches_at_exec(s, pat, i) {
            return Some(i);
        }
        if i == 0 {
            assert(rfind_upto(s@, pat@, -1) is None);
            return None;
        }
        i = i - 1;
    }
}

/// Whether `s` holds `pat`.
pub fn contains_exec(s: &[char], pat: &[char]) -> (b: bool)
    ensures
        b == contains(s@, pat@),
{
    find_exec(s, pat).is_some()
}

/// Whether `s` starts with `pat`.
pub fn starts_with_exec(s: &[char], pat: &[char]) -> (b: bool)
    ensures
        b == starts_with(s@, pat@),
{
    matches_at_exec(s, pat, 0)
}

/// Whether `a` and `b` hold the same characters.
pub fn eq_chars(a: &[char], b: &[char]) -> (r: bool)
    ensures
        r == (a@ == b@),
{
    if a.len() != b.len() {
        return false;
    }
    let r = matches_at_exec(a, b, 0);
    proof {
        if r {
            assert forall|k: int| 0 <= k < a@.len() implies a@[k] == b@[k] by {
                assert(a@[0 + k] == b@[k]);
            }
            assert(a@ =~= b@);
        } else {
            if a@ == b@ {
                assert forall|k: int| 0 <= k < b@.len() implies #[trigger] a@[0 + k] == b@[k] by {
                }
            }
        }
    }
    r
}

/// Whether `s` ends with `pat`.
pub fn ends_with_exec(s: &[char], pat: &[char]) -> (b: bool)
    ensures
        b == ends_with(s@, pat@),
{
    if pat.len() > s.len() {
        false
    } else {
        matches_at_exec(s, pat, s.len() - pat.len())
    }
}

// ----------------------------------------------------------------------------
// Conversions between `str` and character vectors
// ----------------------------------------------------------------------------

/// The characters of `s`, in order.
pub fn chars_of(s: &str) -> (v: Vec<char>)
    ensures
        v@ == s@,
{
    let mut v: Vec<char> = Vec::new();
    for c in it: s.chars()
        invariant
            v@ == it.seq().take(it.index() as int),
            it.seq() == s@,
    {
        v.push(c);
    }
    v
}

/// The string made of the characters of `v`.
///
/// Trusted: collects the characters with std's `FromIterator<&char>` for
/// `String`, which appends them in order.
#[verifier::external_body]
pub(crate) fn string_of(v: &[char]) -> (s: String)
    ensures
        s@ == v@,
{
    v.iter().collect()
}

/// A copy of `s[a..b]`.
pub fn sub_vec(s: &[char], a: usize, b: usize) -> (v: Vec<char>)
    requires
        a <= b <= s@.len(),
    ensures
        v@ == s@.subrange(a as int, b as int),
{
    let mut v: Vec<char> = Vec::new();
    let mut i = a;
    while i < b
        invariant
            a <= i <= b <= s@.len(),
            v@ == s@.subrange(a as int, i as int),
        decreases b - i,
    {
        v.push(s[i]);
        i = i + 1;
    }
    v
}

/// Appends `t` to `v`.
pub fn push_all<T: Copy>(v: &mut Vec<T>, t: &[T])
    ensures
        final(v)@ == old(v)@ + t@,
{
    let mut i: usize = 0;
    while i < t.len()
        invariant
            i <= t@.len(),
            v@ == old(v)@ + t@.take(i as int),
        decreases t@.len() - i,
    {
        v.push(t[i]);
        i = i + 1;
        assert(t@.take(i as int) == t@.take(i - 1) + seq![t@[i - 1]]);
    }
    assert(t@.take(t@.len() as int) == t@);
}

/// Appends the characters of `t` to `v`.
pub fn push_str(v: &mut Vec<char>, t: &str)
    ensures
        final(v)@ == old(v)@ + t@,
{
    let tc = chars_of(t);
    push_all(v, tc.as_slice());
}

// ----------------------------------------------------------------------------
// Character classes
// ----------------------------------------------------------------------------

/// Whether `c` has the Unicode White_Space property, as `char::is_whitespace`
/// answers: tab to carriage return, space, next line, no-break space, ogham
/// space mark, the spaces from en quad to hair space, line and paragraph
/// separators, narrow no-break space, medium mathematical space and
/// ideographic space.
pub open spec fn spec_is_whitespace(c: char) -> bool {
    ('\u{9}' <= c && c <= '\u{d}') || c == ' ' || c == '\u{85}' || c == '\u{a0}' || c == '\u{1680}'
        || ('\u{2000}' <= c && c <= '\u{200a}') || c == '\u{2028}' || c == '\u{2029}' || c == '\u{202f}'
        || c == '\u{205f}' || c == '\u{3000}'
}

/// Whether `c` is alphabetic or numeric in Unicode's terms, as
/// `char::is_alphanumeric` answers.
pub uninterp spec fn spec_is_alphanumeric(c: char) -> bool;

/// The lower-case form of a string, as `str::to_lowercase` computes it.
pub uninterp spec fn spec_to_lowercase(s: Seq<char>) -> Seq<char>;

/// A character of ASCII.
pub open spec fn is_ascii_char(c: char) -> bool {
    c <= '\u{7f}'
}

/// A text all in ASCII.
pub open spec fn all_ascii(s: Seq<char>) -> bool {
    forall|i: int| 0 <= i < s.len() ==> is_ascii_char(#[trigger] s[i])
}

/// An ASCII letter in lower case; any other character as it is.
pub open spec fn ascii_lower(c: char) -> char {
    if 'A' <= c && c <= 'Z' {
        ((c as u32) + 32) as char
    } else {
        c
    }
}

/// A text with its ASCII capitals in lower case.
pub open spec fn ascii_lowercase(s: Seq<char>) -> Seq<char> {
    s.map_values(|c: char| ascii_lower(c))
}

/// Lower-casing ASCII twice is lower-casing it once, and stays in ASCII.
pub proof fn lemma_ascii_lowercase_idempotent(s: Seq<char>)
    requires
        all_ascii(s),
    ensures
        all_ascii(ascii_lowercase(s)),
        ascii_lowercase(ascii_lowercase(s)) == ascii_lowercase(s),
{
    assert forall|i: int| 0 <= i < s.len() implies is_ascii_char(#[trigger] ascii_lowercase(s)[i])
        && ascii_lower(ascii_lowercase(s)[i]) == ascii_lowercase(s)[i] by {
        let c = s[i];
        assert(is_ascii_char(c));
        if 'A' <= c && c <= 'Z' {
            assert((c as u32) < 128);
        }
    }
    assert(ascii_lowercase(ascii_lowercase(s)) =~= ascii_lowercase(s));
}

/// Whether `c` is white space.
pub fn char_is_whitespace(c: char) -> (b: bool)
    ensures
        b == spec_is_whitespace(c),
{
    ('\u{9}' <= c && c <= '\u{d}') || c == ' ' || c == '\u{85}' || c == '\u{a0}' || c == '\u{1680}'
        || ('\u{2000}' <= c && c <= '\u{200a}') || c == '\u{2028}' || c == '\u{2029}' || c == '\u{202f}'
        || c == '\u{205f}' || c == '\u{3000}'
}

/// Whether `c` is alphabetic or numeric: for ASCII, exactly the letters
/// `a`-`z`, `A`-`Z` and the digits `0`-`9`; beyond ASCII, as Unicode
/// classes it (named by `spec_is_alphanumeric`).
pub open spec fn is_alnum(c: char) -> bool {
    if is_ascii_char(c) {
        is_ascii_alpha(c) || is_digit(c)
    } else {
        spec_is_alphanumeric(c)
    }
}

/// Trusted: calls `char::is_alphanumeric`. Beyond ASCII the result is
/// named, not stated; an ASCII character is alphanumeric exactly when it
/// is a letter or a digit (std: alphabetic or numeric, which in ASCII are
/// the letters and the digits).
#[verifier::external_body]
pub(crate) fn char_is_alphanumeric(c: char) -> (b: bool)
    ensures
        b == spec_is_alphanumeric(c),
        is_ascii_char(c) ==> (b <==> (is_ascii_alpha(c) || is_digit(c))),
{
    c.is_alphanumeric()
}

/// Trusted: calls `str::to_lowercase`, whose result depends on the string
/// alone. The Unicode case mapping is named, not stated, except for ASCII:
/// there every capital `A`-`Z` becomes its small letter and every other
/// character is kept.
#[verifier::external_body]
pub(crate) fn str_to_lowercase(s: &str) -> (r: String)
    ensures
        r@ == spec_to_lowercase(s@),
        all_ascii(s@) ==> r@ == ascii_lowercase(s@),
{
    s.to_lowercase()
}

/// An ASCII decimal digit.
pub open spec fn is_digit(c: char) -> bool {
    '0' <= c && c <= '9'
}

/// An ASCII letter.
pub open spec fn is_ascii_alpha(c: char) -> bool {
    ('a' <= c && c <= 'z') || ('A' <= c && c <= 'Z')
}

// ----------------------------------------------------------------------------
// Trimming
// ----------------------------------------------------------------------------

/// How many whitespace characters `s` starts with.
pub open spec fn leading_ws(s: Seq<char>) -> nat
    decreases s.len(),
{
    if s.len() > 0 && spec_is_whitespace(s[0]) {
        1 + leading_ws(s.drop_first())
    } else {
        0
    }
}

/// How many whitespace characters `s` ends with.
pub open spec fn trailing_ws(s: Seq<char>) -> nat
    decreases s.len(),
{
    if s.len() > 0 && spec_is_whitespace(s.last()) {
        1 + trailing_ws(s.drop_last())
    } else {
        0
    }
}

/// `s` without its leading whitespace.
pub open spec fn trim_start(s: Seq<char>) -> Seq<char> {
    s.skip(leading_ws(s) as int)
}

/// `s` without its trailing whitespace.
pub open spec fn trim_end(s: Seq<char>) -> Seq<char> {
    s.take(s.len() - trailing_ws(s))
}

/// `s` without leading and trailing whitespace (as `str::trim`).
pub open spec fn trim(s: Seq<char>) -> Seq<char> {
    trim_end(trim_start(s))
}

proof fn lemma_leading_ws_bound(s: Seq<char>)
    ensures
        leading_ws(s) <= s.len(),
    decreases s.len(),
{
    if s.len() > 0 && spec_is_whitespace(s[0]) {
        lemma_leading_ws_bound(s.drop_first());
    }
}

proof fn lemma_trailing_ws_bound(s: Seq<char>)
    ensures
        trailing_ws(s) <= s.len(),
    decreases s.len(),
{
    if s.len() > 0 && spec_is_whitespace(s.last()) {
        lemma_trailing_ws_bound(s.drop_last());
    }
}

/// The number of leading whitespace characters of `s[i..]`.
fn leading_ws_from(s: &[char], i: usize) -> (n: usize)
    requires
        i <= s@.len(),
    ensures
        n == leading_ws(s@.skip(i as int)),
        i + n <= s@.len(),
    decreases s@.len() - i,
{
    if i < s.len() && char_is_whitespace(s[i]) {
        assert(s@.skip(i as int).drop_first() == s@.skip(i + 1));
        let n = leading_ws_from(s, i + 1);
        n + 1
    } else {
        0
    }
}

/// The number of trailing whitespace characters of `s[..j]`.
fn trailing_ws_upto(s: &[char], j: usize) -> (n: usize)
    requires
        j <= s@.len(),
    ensures
        n == trailing_ws(s@.take(j as int)),
        n <= j,
    decreases j,
{
    if j > 0 && char_is_whitespace(s[j - 1]) {
        assert(s@.take(j as int).drop_last() == s@.take(j - 1));
        let n = trailing_ws_upto(s, j - 1);
        n + 1
    } else {
        0
    }
}

/// `s` without leading whitespace.
pub fn trim_start_vec(s: &[char]) -> (v: Vec<char>)
    ensures
        v@ == trim_start(s@),
{
    let a = leading_ws_from(s, 0);
    assert(s@.skip(0) == s@);
    sub_vec(s, a, s.len())
}

/// `s` without leading and trailing whitespace.
pub fn trim_vec(s: &[char]) -> (v: Vec<char>)
    ensures
        v@ == trim(s@),
{
    let t = trim_start_vec(s);
    let b = trailing_ws_upto(t.as_slice(), t.len());
    assert(t@.take(t@.len() as int) == t@);
    sub_vec(t.as_slice(), 0, t.len() - b)
}

/// `s` without leading and trailing whitespace, as a string.
pub fn trim_str(s: &str) -> (r: String)
    ensures
        r@ == trim(s@),
{
    let v = chars_of(s);
    let t = trim_vec(v.as_slice());
    string_of(t.as_slice())
}

// ----------------------------------------------------------------------------
// Whitespace collapsing
// ----------------------------------------------------------------------------

/// The output so far, and whether a space is owed before the next word,
/// after reading `s` left to right.
pub open spec fn collapse_state(s: Seq<char>) -> (Seq<char>, bool)
    decreases s.len(),
{
    if s.len() == 0 {
        (Seq::empty(), false)
    } else {
        let (out, pending) = collapse_state(s.drop_last());
        let c = s.last();
        if spec_is_whitespace(c) {
            (out, out.len() > 0)
        } else if pending {
            (out.push(' ').push(c), false)
        } else {
            (out.push(c), false)
        }
    }
}

/// The words of `s` joined by single spaces: leading and trailing whitespace
/// dropped and every inner run of whitespace replaced by one space (as
/// `split_whitespace` followed by `join(" ")`).
pub open spec fn collapse_ws(s: Seq<char>) -> Seq<char> {
    collapse_state(s).0
}

/// The words of `s` joined by single spaces.
pub fn collapse_ws_vec(s: &[char]) -> (v: Vec<char>)
    ensures
        v@ == collapse_ws(s@),
{
    let mut out: Vec<char> = Vec::new();
    let mut pending = false;
    let mut i: usize = 0;
    while i < s.len()
        invariant
            i <= s@.len(),
            (out@, pending) == collapse_state(s@.take(i as int)),
        decreases s@.len() - i,
    {
        let c = s[i];
        assert(s@.take(i + 1).drop_last() == s@.take(i as int));
        if char_is_whitespace(c) {
            pending = out.len() > 0;
        } else {
            if pending {
                out.push(' ');
            }
            out.push(c);
            pending = false;
        }
        i = i + 1;
    }
    assert(s@.take(s@.len() as int) == s@);
    out
}

// ----------------------------------------------------------------------------
// Decimal numbers
// ----------------------------------------------------------------------------

/// The value of an ASCII digit.
pub open spec fn digit_value(c: char) -> nat {
    (c as int - '0' as int) as nat
}

/// Every character of `s` is an ASCII digit.
pub open spec fn all_digits(s: Seq<char>) -> bool {
    forall|i: int| 0 <= i < s.len() ==> is_digit(#[trigger] s[i])
}

/// The number written by the digits `s`.
pub open spec fn digits_value(s: Seq<char>) -> nat
    decreases s.len(),
{
    if s.len() == 0 {
        0
    } else {
        digits_value(s.drop_last()) * 10 + digit_value(s.last())
    }
}

/// The number that `s` writes in decimal, with an optional leading `+`, as
/// the `FromStr` impls of the unsigned integer types read it (before the range
/// check).
pub open spec fn decimal_value(s: Seq<char>) -> Option<nat> {
    let body = if s.len() > 0 && s[0] == '+' {
        s.drop_first()
    } else {
        s
    };
    if body.len() > 0 && all_digits(body) {
        Some(digits_value(body))
    } else {
        None
    }
}

/// The number that `s` writes, if it fits below `max`.
pub open spec fn parse_bounded(s: Seq<char>, max: nat) -> Option<nat> {
    match decimal_value(s) {
        Some(n) => if n <= max {
            Some(n)
        } else {
            None
        },
        None => None,
    }
}

proof fn lemma_digits_value_grows(s: Seq<char>, k: int)
    requires
        0 <= k <= s.len(),
    ensures
        digits_value(s.take(k)) <= digits_value(s),
    decreases s.len(),
{
    if k < s.len() {
        assert(s.drop_last().take(k) == s.take(k));
        lemma_digits_value_grows(s.drop_last(), k);
    } else {
        assert(s.take(k) == s);
    }
}

/// Reads the digits `s[a..]` as a number no larger than `max`.
fn digits_bounded(s: &[char], a: usize, max: u64) -> (r: Option<u64>)
    requires
        a <= s@.len(),
    ensures
        match r {
            Some(n) => all_digits(s@.skip(a as int)) && n == digits_value(s@.skip(a as int))
                && n <= max,
            None => !all_digits(s@.skip(a as int)) || digits_value(s@.skip(a as int)) > max,
        },
{
    let ghost body = s@.skip(a as int);
    let mut v: u64 = 0;
    let mut i = a;
    while i < s.len()
        invariant
            a <= i <= s@.len(),
            body == s@.skip(a as int),
            all_digits(body.take(i - a)),
            v == digits_value(body.take(i - a)),
            v <= max,
        decreases s@.len() - i,
    {
        let c = s[i];
        assert(body.take(i + 1 - a).drop_last() == body.take(i - a));
        assert(body.take(i + 1 - a).last() == c);
        if !('0' <= c && c <= '9') {
            assert(body[i - a] == c);
            return None;
        }
        let d = (c as u32 - '0' as u32) as u64;
        match v.checked_mul(10) {
            Some(m) => match m.checked_add(d) {
                Some(n) => {
                    if n > max {
                        proof {
                            lemma_digits_value_grows(body, i + 1 - a);
                        }
                        return None;
                    }
                    v = n;
                },
                None => {
                    proof {
                        lemma_digits_value_grows(body, i + 1 - a);
                    }
                    return None;
                },
            },
            None => {
                proof {
                    lemma_digits_value_grows(body, i + 1 - a);
                }
                return None;
            },
        }
        i = i + 1;
        assert(all_digits(body.take(i - a))) by {
            assert forall|j: int| 0 <= j < body.take(i - a).len() implies is_digit(
                #[trigger] body.take(i - a)[j],
            ) by {
                if j < i - 1 - a {
                    assert(body.take(i - a)[j] == body.take(i - 1 - a)[j]);
                }
            }
        }
    }
    assert(body.take(s@.len() - a) == body);
    Some(v)
}

/// The number that `s` writes in decimal, if it is at most `max`.
pub fn parse_decimal(s: &[char], max: u64) -> (r: Option<u64>)
    ensures
        opt_u64(r) == parse_bounded(s@, max as nat),
{
    let a: usize = if s.len() > 0 && s[0] == '+' {
        1
    } else {
        0
    };
    assert(s@.skip(a as int) == if s@.len() > 0 && s@[0] == '+' {
        s@.drop_first()
    } else {
        s@
    });
    if a == s.len() {
        return None;
    }
    digits_bounded(s, a, max)
}

/// A `u64` result seen as a natural number.
pub open spec fn opt_u64(o: Option<u64>) -> Option<nat> {
    match o {
        Some(n) => Some(n as nat),
        None => None,
    }
}

/// As `s.parse::<u64>().ok()`.
pub fn parse_u64(s: &str) -> (r: Option<u64>)
    ensures
        opt_u64(r) == parse_bounded(s@, u64::MAX as nat),
{
    let v = chars_of(s);
    parse_decimal(v.as_slice(), u64::MAX)
}

/// As `s.parse::<u32>().ok()`.
pub fn parse_u32(s: &str) -> (r: Option<u32>)
    ensures
        match r {
            Some(n) => parse_bounded(s@, u32::MAX as nat) == Some(n as nat),
            None => parse_bounded(s@, u32::MAX as nat) is None,
        },
{
    let v = chars_of(s);
    match parse_decimal(v.as_slice(), u32::MAX as u64) {
        Some(n) => Some(n as u32),
        None => None,
    }
}

/// The ASCII digit for `d < 10`.
pub open spec fn digit_char(d: nat) -> char {
    (d + '0' as int) as char
}

/// The decimal digits of `n`, without leading zeros (as `Display` writes
/// unsigned integers).
pub open spec fn decimal(n: nat) -> Seq<char>
    decreases n,
{
    if n < 10 {
        seq![digit_char(n)]
    } else {
        decimal(n / 10).push(digit_char(n % 10))
    }
}

/// The decimal digits of `n`.
pub fn decimal_vec(n: u64) -> (v: Vec<char>)
    ensures
        v@ == decimal(n as nat),
    decreases n,
{
    let d = (n % 10) as u8;
    let c = (d + 48u8) as char;
    assert(c == digit_char((n % 10) as nat));
    if n < 10 {
        let mut v: Vec<char> = Vec::new();
        v.push(c);
        v
    } else {
        let mut v = decimal_vec(n / 10);
        v.push(c);
        v
    }
}

/// `s` padded on the left with `'0'` up to `width` characters.
pub open spec fn zero_pad(s: Seq<char>, width: nat) -> Seq<char> {
    if s.len() >= width {
        s
    } else {
        Seq::new((width - s.len()) as nat, |i: int| '0') + s
    }
}

/// The decimal digits of `n`, padded with zeros to `width` (as `{:0width$}`).
pub fn padded_decimal_vec(n: u64, width: usize) -> (v: Vec<char>)
    ensures
        v@ == zero_pad(decimal(n as nat), width as nat),
{
    let d = decimal_vec(n);
    if d.len() >= width {
        return d;
    }
    let mut v: Vec<char> = Vec::new();
    let mut i: usize = 0;
    while i < width - d.len()
        invariant
            d.len() < width,
            i <= width - d@.len(),
            v@ == Seq::new(i as nat, |k: int| '0'),
        decreases width - d@.len() - i,
    {
        v.push('0');
        i = i + 1;
        assert(v@ =~= Seq::new(i as nat, |k: int| '0'));
    }
    push_all(&mut v, d.as_slice());
    v
}

// ----------------------------------------------------------------------------
// Replacing
// ----------------------------------------------------------------------------

/// `s` with every occurrence of `from` replaced by `to`, scanning left to
/// right without overlaps (as `str::replace`); an empty `from` leaves `s` as
/// it is.
pub open spec fn replace_all(s: Seq<char>, from: Seq<char>, to: Seq<char>) -> Seq<char>
    decreases s.len(),
{
    if s.len() == 0 || from.len() == 0 {
        s
    } else if starts_with(s, from) {
        to + replace_all(s.skip(from.len() as int), from, to)
    } else {
        seq![s[0]] + replace_all(s.drop_first(), from, to)
    }
}

/// `s` with every occurrence of `from` replaced by `to`.
pub fn replace_vec(s: &[char], from: &[char], to: &[char]) -> (v: Vec<char>)
    ensures
        v@ == replace_all(s@, from@, to@),
{
    let mut out: Vec<char> = Vec::new();
    if from.len() == 0 {
        push_all(&mut out, s);
        return out;
    }
    let mut i: usize = 0;
    assert(s@.skip(0) == s@);
    while i < s.len()
        invariant
            i <= s@.len(),
            from@.len() > 0,
            out@ + replace_all(s@.skip(i as int), from@, to@) == replace_all(s@, from@, to@),
        decreases s@.len() - i,
    {
        let ghost rest = s@.skip(i as int);
        if matches_at_exec(s, from, i) {
            assert(starts_with(rest, from@)) by {
                assert forall|k: int| 0 <= k < from@.len() implies #[trigger] rest[0 + k]
                    == from@[k] by {
                    assert(rest[k] == s@[i + k]);
                }
            }
            assert(rest.skip(from@.len() as int) == s@.skip(i + from@.len()));
            push_all(&mut out, to);
            i = i + from.len();
        } else {
            assert(!starts_with(rest, from@)) by {
                if starts_with(rest, from@) {
                    assert forall|k: int| 0 <= k < from@.len() implies #[trigger] s@[i + k]
                        == from@[k] by {
                        assert(rest[0 + k] == from@[k]);
                    }
                }
            }
            assert(rest.drop_first() == s@.skip(i + 1));
            out.push(s[i]);
            i = i + 1;
        }
    }
    out
}

/// `s` with every occurrence of `from` replaced by `to`.
pub fn replace_str(s: &[char], from: &str, to: &str) -> (v: Vec<char>)
    ensures
        v@ == replace_all(s@, from@, to@),
{
    let f = chars_of(from);
    let t = chars_of(to);
    replace_vec(s, f.as_slice(), t.as_slice())
}

/// A position as an integer.
pub open spec fn idx(i: usize) -> int {
    i as int
}

/// The characters of `s` after a leading `c`, or all of `s`.
pub open spec fn strip_prefix_char(s: Seq<char>, c: char) -> Seq<char> {
    if s.len() > 0 && s[0] == c {
        s.drop_first()
    } else {
        s
    }
}

/// `s` without one leading `c`, if it starts with one.
pub fn strip_prefix_char_vec(s: &[char], c: char) -> (v: Vec<char>)
    ensures
        v@ == strip_prefix_char(s@, c),
{
    if s.len() > 0 && s[0] == c {
        sub_vec(s, 1, s.len())
    } else {
        sub_vec(s, 0, s.len())
    }
}

// ----------------------------------------------------------------------------
// Pieces around a character
// ----------------------------------------------------------------------------

/// `s` up to (without) its first `c`, or all of `s` (as
/// `s.split(c).next()`).
pub open spec fn before_char(s: Seq<char>, c: char) -> Seq<char> {
    match find(s, seq![c]) {
        Some(i) => s.take(i),
        None => s,
    }
}

/// `s` after its last `c`, or all of `s` (as `s.rsplit(c).next()`).
pub open spec fn after_last_char(s: Seq<char>, c: char) -> Seq<char> {
    match rfind(s, seq![c]) {
        Some(i) => s.skip(i + 1),
        None => s,
    }
}

/// `s` without trailing `c`s (as `trim_end_matches(c)`).
pub open spec fn trim_end_char(s: Seq<char>, c: char) -> Seq<char>
    decreases s.len(),
{
    if s.len() > 0 && s.last() == c {
        trim_end_char(s.drop_last(), c)
    } else {
        s
    }
}

/// `s` without leading `c`s (as `trim_start_matches(c)`).
pub open spec fn trim_start_char(s: Seq<char>, c: char) -> Seq<char>
    decreases s.len(),
{
    if s.len() > 0 && s[0] == c {
        trim_start_char(s.drop_first(), c)
    } else {
        s
    }
}

/// The one-character sequence `c`.
pub fn one_char(c: char) -> (v: Vec<char>)
    ensures
        v@ == seq![c],
{
    let mut v: Vec<char> = Vec::new();
    v.push(c);
    v
}

/// `s` up to its first `c`.
pub fn before_char_vec(s: &[char], c: char) -> (v: Vec<char>)
    ensures
        v@ == before_char(s@, c),
{
    let cv = one_char(c);
    proof {
        lemma_find_from(s@, seq![c], 0);
    }
    match find_exec(s, cv.as_slice()) {
        Some(i) => sub_vec(s, 0, i),
        None => {
            let v = sub_vec(s, 0, s.len());
            assert(v@ == s@);
            v
        },
    }
}

/// `s` after its last `c`.
pub fn after_last_char_vec(s: &[char], c: char) -> (v: Vec<char>)
    ensures
        v@ == after_last_char(s@, c),
{
    let cv = one_char(c);
    proof {
        lemma_rfind_upto(s@, seq![c], s@.len() - 1);
    }
    match rfind_exec(s, cv.as_slice()) {
        Some(i) => {
            let n = s.len();
            assert(i + 1 <= n);
            sub_vec(s, i + 1, n)
        },
        None => {
            let v = sub_vec(s, 0, s.len());
            assert(v@ == s@);
            v
        },
    }
}

/// `s` without trailing `c`s.
pub fn trim_end_char_vec(s: &[char], c: char) -> (v: Vec<char>)
    ensures
        v@ == trim_end_char(s@, c),
{
    let mut j = s.len();
    assert(s@.take(s@.len() as int) == s@);
    while j > 0 && s[j - 1] == c
        invariant
            j <= s@.len(),
            trim_end_char(s@, c) == trim_end_char(s@.take(j as int), c),
        decreases j,
    {
        assert(s@.take(j as int).drop_last() == s@.take(j - 1));
        j = j - 1;
    }
    assert(s@.take(s@.len() as int) == s@);
    sub_vec(s, 0, j)
}

/// `s` without leading `c`s.
pub fn trim_start_char_vec(s: &[char], c: char) -> (v: Vec<char>)
    ensures
        v@ == trim_start_char(s@, c),
{
    let mut i: usize = 0;
    assert(s@.skip(0) == s@);
    while i < s.len() && s[i] == c
        invariant
            i <= s@.len(),
            trim_start_char(s@, c) == trim_start_char(s@.skip(i as int), c),
        decreases s@.len() - i,
    {
        assert(s@.skip(i as int).drop_first() == s@.skip(i + 1));
        i = i + 1;
    }
    sub_vec(s, i, s.len())
}

/// A piece of text that is the whole of `v`.
pub fn copy_vec(v: &[char]) -> (r: Vec<char>)
    ensures
        r@ == v@,
{
    let r = sub_vec(v, 0, v.len());
    assert(r@ == v@);
    r
}

/// The texts of a list of character vectors.
pub open spec fn piece_views(v: Seq<Vec<char>>) -> Seq<Seq<char>> {
    v.map_values(|x: Vec<char>| x@)
}

/// The texts of a list of strings.
pub open spec fn string_views(v: Seq<String>) -> Seq<Seq<char>> {
    v.map_values(|s: String| s@)
}

/// The strings made of each character vector.
pub fn strings_of(v: &Vec<Vec<char>>) -> (r: Vec<String>)
    ensures
        string_views(r@) == piece_views(v@),
{
    let mut r: Vec<String> = Vec::new();
    let mut i: usize = 0;
    while i < v.len()
        invariant
            i <= v@.len(),
            string_views(r@) == piece_views(v@).take(i as int),
        decreases v@.len() - i,
    {
        let ghost old_r = r@;
        let s = string_of(v[i].as_slice());
        r.push(s);
        assert(r@ == old_r.push(s));
        assert(string_views(r@) =~= string_views(old_r).push(s@));
        assert(piece_views(v@).take(i + 1) =~= piece_views(v@).take(i as int).push(v@[i as int]@));
        i = i + 1;
    }
    assert(piece_views(v@).take(v@.len() as int) =~= piece_views(v@));
    r
}

/// A copy of a list of strings.
pub fn strings_copy(v: &Vec<String>) -> (r: Vec<String>)
    ensures
        string_views(r@) == string_views(v@),
{
    let mut r: Vec<String> = Vec::new();
    let mut i: usize = 0;
    while i < v.len()
        invariant
            i <= v@.len(),
            string_views(r@) == string_views(v@).take(i as int),
        decreases v@.len() - i,
    {
        let ghost before = string_views(r@);
        let s = v[i].clone();
        r.push(s);
        assert(string_views(r@) =~= before.push(s@));
        assert(string_views(v@).take(i + 1) =~= string_views(v@).take(i as int).push(v@[i as int]@));
        i = i + 1;
    }
    assert(string_views(v@).take(v@.len() as int) =~= string_views(v@));
    r
}

/// Whether `x` is one of the pieces in `v`.
pub fn contains_piece(v: &Vec<Vec<char>>, x: &[char]) -> (b: bool)
    ensures
        b == piece_views(v@).contains(x@),
{
    let mut i: usize = 0;
    while i < v.len()
        invariant
            i <= v@.len(),
            forall|j: int| 0 <= j < i ==> piece_views(v@)[j] != x@,
        decreases v@.len() - i,
    {
        if eq_chars(v[i].as_slice(), x) {
            assert(piece_views(v@)[i as int] == x@);
            return true;
        }
        i = i + 1;
    }
    false
}

/// The pieces of `s` in order, each kept only the first time it appears.
pub open spec fn dedup(s: Seq<Seq<char>>) -> Seq<Seq<char>>
    decreases s.len(),
{
    if s.len() == 0 {
        Seq::empty()
    } else {
        let d = dedup(s.drop_last());
        if d.contains(s.last()) {
            d
        } else {
            d.push(s.last())
        }
    }
}

/// Whether `s` takes at most `limit` bytes in UTF-8.
pub fn utf8_len_at_most(s: &[char], limit: usize) -> (b: bool)
    ensures
        b == (encode_utf8(s@).len() <= limit),
{
    let mut total: usize = 0;
    let mut i = s.len();
    assert(s@.take(s@.len() as int) =~= s@);
    while i > 0
        invariant
            i <= s@.len(),
            total <= limit,
            encode_utf8(s@).len() == encode_utf8(s@.take(i as int)).len() + total,
        decreases i,
    {
        let c = s[i - 1];
        proof {
            char_is_scalar(c);
        }
        let w: usize = if (c as u32) <= 0x7F {
            1
        } else if (c as u32) <= 0x7FF {
            2
        } else if (c as u32) <= 0xFFFF {
            3
        } else {
            4
        };
        proof {
            lemma_encode_utf8_split(s@.take(i as int));
            assert(s@.take(i as int).drop_last() == s@.take(i - 1));
        }
        assert(encode_scalar(c as u32).len() == w);
        if w > limit - total {
            return false;
        }
        total = total + w;
        i = i - 1;
    }
    assert(s@.take(0) =~= Seq::<char>::empty());
    true
}

/// How many bytes `c` takes in UTF-8.
pub fn utf8_width(c: char) -> (w: usize)
    ensures
        w == encode_scalar(c as u32).len(),
        1 <= w <= 4,
{
    proof {
        char_is_scalar(c);
    }
    if (c as u32) <= 0x7F {
        1
    } else if (c as u32) <= 0x7FF {
        2
    } else if (c as u32) <= 0xFFFF {
        3
    } else {
        4
    }
}

/// The UTF-8 bytes of `s` are those of all but its last character followed by
/// those of the last.
pub proof fn lemma_encode_utf8_split(s: Seq<char>)
    requires
        s.len() > 0,
    ensures
        encode_utf8(s).len() == encode_utf8(s.drop_last()).len() + encode_scalar(s.last() as u32).len(),
    decreases s.len(),
{
    if s.len() > 1 {
        lemma_encode_utf8_split(s.drop_first());
        assert(s.drop_first().drop_last() == s.drop_last().drop_first());
        assert(s.drop_first().last() == s.last());
    } else {
        assert(s.drop_last() =~= Seq::<char>::empty());
        assert(s.drop_first() =~= Seq::<char>::empty());
    }
}

} // verus!
