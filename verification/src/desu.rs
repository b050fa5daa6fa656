//! desu.uno: reading titles, chapters, reader pages and search results out of
//! the site's HTML, and naming what is downloaded.
use vstd::prelude::*;
use crate::text::{
    after_last_char, all_digits, before_char, before_char_vec, chars_of, collapse_ws,
    collapse_ws_vec, contains, contains_exec, contains_piece, copy_vec, decimal, decimal_vec,
    dedup, ends_with, ends_with_exec, eq_chars, find, find_exec, find_from, find_from_exec,
    is_digit, lemma_find_from, lemma_rfind_upto, one_char, opt_int, parse_bounded,
    parse_decimal, piece_views, push_all, push_str, rfind, rfind_exec, starts_with,
    starts_with_exec, string_of, string_views, strings_of, sub_vec, trim, trim_end_char,
    trim_end_char_vec, trim_start, trim_start_char, trim_start_char_vec, trim_start_vec,
    trim_vec,
};

verus! {

/// The site's address.
pub const BASE: &'static str = "https://desu.uno";

// ----------------------------------------------------------------------------
// Title identifiers
// ----------------------------------------------------------------------------

/// A title's identifier read from `slug.id` or a bare `id`: the slug and the
/// number. With a bare number the slug is the number's decimal form.
pub open spec fn spec_parse_slug_id(s: Seq<char>) -> Option<(Seq<char>, u64)> {
    let by_dot = match rfind(s, seq!['.']) {
        Some(p) => match parse_bounded(s.skip(p + 1), u64::MAX as nat) {
            Some(n) => Some((s.take(p), n as u64)),
            None => None,
        },
        None => None,
    };
    if by_dot is Some {
        by_dot
    } else {
        match parse_bounded(s, u64::MAX as nat) {
            Some(n) => Some((decimal(n), n as u64)),
            None => None,
        }
    }
}

/// The text and number of a parsed identifier.
pub open spec fn slug_id_view(r: Option<(String, u64)>) -> Option<(Seq<char>, u64)> {
    match r {
        Some((s, n)) => Some((s@, n)),
        None => None,
    }
}

/// Reads `slug.id` (the number after the last `.`) or a bare `id`.
pub fn parse_slug_id(input: &str) -> (r: Option<(String, u64)>)
    ensures
        slug_id_view(r) == spec_parse_slug_id(input@),
{
    let s = chars_of(input);
    let dot = one_char('.');
    proof {
        lemma_rfind_upto(s@, seq!['.'], s@.len() - 1);
    }
    match rfind_exec(s.as_slice(), dot.as_slice()) {
        Some(pos) => {
            let n = s.len();
            assert(pos + 1 <= n);
            let after = sub_vec(s.as_slice(), pos + 1, n);
            assert(after@ == s@.skip(pos + 1));
            match parse_decimal(after.as_slice(), u64::MAX) {
                Some(id) => {
                    let slug = sub_vec(s.as_slice(), 0, pos);
                    return Some((string_of(slug.as_slice()), id));
                },
                None => {},
            }
        },
        None => {},
    }
    match parse_decimal(s.as_slice(), u64::MAX) {
        Some(id) => {
            let d = decimal_vec(id);
            Some((string_of(d.as_slice()), id))
        },
        None => None,
    }
}

/// The `slug.id` in a title's address, kept when it ends in `.id`.
pub open spec fn spec_slug_from_url(url: Seq<char>, id: Seq<char>) -> Option<Seq<char>> {
    let prefix = BASE@ + "/manga/"@;
    if starts_with(url, prefix) {
        let slug_id = before_char(url.skip(prefix.len() as int), '/');
        if ends_with(slug_id, seq!['.'] + id) {
            Some(slug_id)
        } else {
            None
        }
    } else {
        None
    }
}

/// The `slug.id` of the address a title's page ended up at, if it is a
/// manga address and its identifier ends in `.id`.
pub fn slug_from_url(url: &str, id: &str) -> (r: Option<String>)
    ensures
        match spec_slug_from_url(url@, id@) {
            Some(v) => r is Some && r->0@ == v,
            None => r is None,
        },
{
    let u = chars_of(url);
    let mut prefix = chars_of(BASE);
    push_str(&mut prefix, "/manga/");
    if !starts_with_exec(u.as_slice(), prefix.as_slice()) {
        return None;
    }
    let after = sub_vec(u.as_slice(), prefix.len(), u.len());
    let slug_id = before_char_vec(after.as_slice(), '/');
    let mut suffix = one_char('.');
    push_str(&mut suffix, id);
    if ends_with_exec(slug_id.as_slice(), suffix.as_slice()) {
        Some(string_of(slug_id.as_slice()))
    } else {
        None
    }
}

// ----------------------------------------------------------------------------
// Pieces after a pattern
// ----------------------------------------------------------------------------

/// How many ASCII digits `s` starts with.
pub open spec fn leading_digits(s: Seq<char>) -> nat
    decreases s.len(),
{
    if s.len() > 0 && is_digit(s[0]) {
        1 + leading_digits(s.drop_first())
    } else {
        0
    }
}

/// The text after the first `pat` in `s`.
pub open spec fn spec_str_after(s: Seq<char>, pat: Seq<char>) -> Option<Seq<char>> {
    match find(s, pat) {
        Some(p) => Some(s.skip(p + pat.len())),
        None => None,
    }
}

/// The number written right after the first `pat` in `s`.
pub open spec fn spec_num_after(s: Seq<char>, pat: Seq<char>) -> Option<u32> {
    match spec_str_after(s, pat) {
        Some(rest) => match parse_bounded(rest.take(leading_digits(rest) as int), u32::MAX as nat) {
            Some(n) => Some(n as u32),
            None => None,
        },
        None => None,
    }
}

/// The piece between the first `pat` in `s` and the next `/`.
pub open spec fn spec_segment_after(s: Seq<char>, pat: Seq<char>) -> Option<Seq<char>> {
    match spec_str_after(s, pat) {
        Some(rest) => Some(before_char(rest, '/')),
        None => None,
    }
}

proof fn lemma_leading_digits(s: Seq<char>)
    ensures
        leading_digits(s) <= s.len(),
        all_digits(s.take(leading_digits(s) as int)),
        leading_digits(s) < s.len() ==> !is_digit(s[leading_digits(s) as int]),
    decreases s.len(),
{
    if s.len() > 0 && is_digit(s[0]) {
        lemma_leading_digits(s.drop_first());
        let n = leading_digits(s.drop_first()) as int;
        assert forall|i: int| 0 <= i < s.take(n + 1).len() implies is_digit(
            #[trigger] s.take(n + 1)[i],
        ) by {
            if i > 0 {
                assert(s.take(n + 1)[i] == s.drop_first().take(n)[i - 1]);
            }
        }
    }
}

fn str_after_vec(s: &[char], pat: &[char]) -> (r: Option<Vec<char>>)
    ensures
        match spec_str_after(s@, pat@) {
            Some(v) => r is Some && r->0@ == v,
            None => r is None,
        },
{
    proof {
        lemma_find_from(s@, pat@, 0);
    }
    match find_exec(s, pat) {
        Some(p) => {
            let n = s.len();
            assert(p + pat@.len() <= n);
            Some(sub_vec(s, p + pat.len(), n))
        },
        None => None,
    }
}

/// The text after the first `pat` in `s`.
pub fn extract_str_after(s: &str, pat: &str) -> (r: Option<String>)
    ensures
        match spec_str_after(s@, pat@) {
            Some(v) => r is Some && r->0@ == v,
            None => r is None,
        },
{
    let sv = chars_of(s);
    let pv = chars_of(pat);
    match str_after_vec(sv.as_slice(), pv.as_slice()) {
        Some(v) => Some(string_of(v.as_slice())),
        None => None,
    }
}

/// The number written right after the first `pat` in `s` (its leading ASCII
/// digits, read as a `u32`).
pub fn extract_num_after(s: &str, pat: &str) -> (r: Option<u32>)
    ensures
        r == spec_num_after(s@, pat@),
{
    let sv = chars_of(s);
    let pv = chars_of(pat);
    match str_after_vec(sv.as_slice(), pv.as_slice()) {
        Some(rest) => {
            let mut end: usize = 0;
            assert(rest@.skip(0) == rest@);
            while end < rest.len() && '0' <= rest[end] && rest[end] <= '9'
                invariant
                    end <= rest@.len(),
                    leading_digits(rest@) == end + leading_digits(rest@.skip(end as int)),
                decreases rest@.len() - end,
            {
                assert(rest@.skip(end as int).drop_first() == rest@.skip(end + 1));
                end = end + 1;
            }
            let digits = sub_vec(rest.as_slice(), 0, end);
            match parse_decimal(digits.as_slice(), u32::MAX as u64) {
                Some(n) => Some(n as u32),
                None => None,
            }
        },
        None => None,
    }
}

/// The piece between the first `pat` in `s` and the next `/` (or the end).
pub fn segment_after(s: &str, pat: &str) -> (r: Option<String>)
    ensures
        match spec_segment_after(s@, pat@) {
            Some(v) => r is Some && r->0@ == v,
            None => r is None,
        },
{
    let sv = chars_of(s);
    let pv = chars_of(pat);
    match str_after_vec(sv.as_slice(), pv.as_slice()) {
        Some(rest) => {
            let seg = before_char_vec(rest.as_slice(), '/');
            Some(string_of(seg.as_slice()))
        },
        None => None,
    }
}

/// The directory a chapter is saved in: `vol<volume>_ch<chapter>`, taken from
/// the pieces after `/vol` and `/ch` in its path (`0` when missing).
pub open spec fn spec_chapter_dir_name(path: Seq<char>) -> Seq<char> {
    let vol = match spec_segment_after(path, "/vol"@) {
        Some(v) => v,
        None => "0"@,
    };
    let ch = match spec_segment_after(path, "/ch"@) {
        Some(v) => v,
        None => "0"@,
    };
    "vol"@ + vol + "_ch"@ + ch
}

/// The directory a chapter is saved in.
pub fn chapter_dir_name(chapter_path: &str) -> (r: String)
    ensures
        r@ == spec_chapter_dir_name(chapter_path@),
{
    let mut out: Vec<char> = Vec::new();
    push_str(&mut out, "vol");
    match segment_after(chapter_path, "/vol") {
        Some(v) => push_str(&mut out, v.as_str()),
        None => push_str(&mut out, "0"),
    }
    push_str(&mut out, "_ch");
    match segment_after(chapter_path, "/ch") {
        Some(v) => push_str(&mut out, v.as_str()),
        None => push_str(&mut out, "0"),
    }
    string_of(out.as_slice())
}

// ----------------------------------------------------------------------------
// Tags and text
// ----------------------------------------------------------------------------

/// The characters outside `<...>` tags, and whether inside a tag, after
/// reading `s` left to right.
pub open spec fn untagged(s: Seq<char>) -> (Seq<char>, bool)
    decreases s.len(),
{
    if s.len() == 0 {
        (Seq::empty(), false)
    } else {
        let (out, in_tag) = untagged(s.drop_last());
        let c = s.last();
        if c == '<' {
            (out, true)
        } else if c == '>' {
            (out, false)
        } else if !in_tag {
            (out.push(c), in_tag)
        } else {
            (out, in_tag)
        }
    }
}

/// The text of some HTML: tags dropped, words joined by single spaces.
pub open spec fn spec_strip_tags(html: Seq<char>) -> Seq<char> {
    collapse_ws(untagged(html).0)
}

pub fn strip_tags_vec(html: &[char]) -> (v: Vec<char>)
    ensures
        v@ == spec_strip_tags(html@),
{
    let mut out: Vec<char> = Vec::new();
    let mut in_tag = false;
    let mut i: usize = 0;
    while i < html.len()
        invariant
            i <= html@.len(),
            (out@, in_tag) == untagged(html@.take(i as int)),
        decreases html@.len() - i,
    {
        let c = html[i];
        assert(html@.take(i + 1).drop_last() == html@.take(i as int));
        if c == '<' {
            in_tag = true;
        } else if c == '>' {
            in_tag = false;
        } else if !in_tag {
            out.push(c);
        }
        i = i + 1;
    }
    assert(html@.take(html@.len() as int) == html@);
    collapse_ws_vec(out.as_slice())
}

/// The text of some HTML: the characters outside tags, with runs of
/// whitespace turned into single spaces and the ends trimmed.
pub fn strip_tags(html: &str) -> (r: String)
    ensures
        r@ == spec_strip_tags(html@),
{
    let h = chars_of(html);
    let v = strip_tags_vec(h.as_slice());
    string_of(v.as_slice())
}

/// The text of the first `<h1 ...>...</h1>` heading.
pub open spec fn spec_parse_h1(html: Seq<char>) -> Option<Seq<char>> {
    match find(html, "<h1"@) {
        Some(start) => match find_from(html, ">"@, start) {
            Some(gt) => match find_from(html, "</h1>"@, gt + 1) {
                Some(inner_end) => Some(trim(spec_strip_tags(html.subrange(gt + 1, inner_end)))),
                None => None,
            },
            None => None,
        },
        None => None,
    }
}

/// The text of the page's first `<h1>` heading, tags stripped.
pub fn parse_h1(html: &str) -> (r: Option<String>)
    ensures
        match spec_parse_h1(html@) {
            Some(v) => r is Some && r->0@ == v,
            None => r is None,
        },
{
    let h = chars_of(html);
    let open = chars_of("<h1");
    let gt = chars_of(">");
    let close = chars_of("</h1>");
    proof {
        reveal_strlit(">");
    }
    let start = match find_exec(h.as_slice(), open.as_slice()) {
        Some(s) => s,
        None => {
            return None;
        },
    };
    proof {
        lemma_find_from(h@, ">"@, start as int);
    }
    let g = match find_from_exec(h.as_slice(), gt.as_slice(), start) {
        Some(g) => g,
        None => {
            return None;
        },
    };
    proof {
        lemma_find_from(h@, "</h1>"@, g + 1);
    }
    let inner_end = match find_from_exec(h.as_slice(), close.as_slice(), g + 1) {
        Some(e) => e,
        None => {
            return None;
        },
    };
    let inner = sub_vec(h.as_slice(), g + 1, inner_end);
    let stripped = strip_tags_vec(inner.as_slice());
    let t = trim_vec(stripped.as_slice());
    Some(string_of(t.as_slice()))
}

/// The `slug.id` of the first `href="manga/..."` link, without trailing `/`.
pub open spec fn spec_extract_manga_href(block: Seq<char>) -> Option<Seq<char>> {
    let pat = "href=\"manga/"@;
    match find(block, pat) {
        Some(p) => {
            let rest = block.skip(p + pat.len());
            match find(rest, seq!['"']) {
                Some(end) => Some(trim_end_char(rest.take(end), '/')),
                None => None,
            }
        },
        None => None,
    }
}

/// The `slug.id` a search result links to.
pub fn extract_manga_href(block: &str) -> (r: Option<String>)
    ensures
        match spec_extract_manga_href(block@) {
            Some(v) => r is Some && r->0@ == v,
            None => r is None,
        },
{
    let b = chars_of(block);
    let pat = chars_of("href=\"manga/");
    let rest = match str_after_vec(b.as_slice(), pat.as_slice()) {
        Some(r) => r,
        None => {
            return None;
        },
    };
    let q = one_char('"');
    proof {
        lemma_find_from(rest@, seq!['"'], 0);
    }
    match find_exec(rest.as_slice(), q.as_slice()) {
        Some(end) => {
            let slug = sub_vec(rest.as_slice(), 0, end);
            let t = trim_end_char_vec(slug.as_slice(), '/');
            Some(string_of(t.as_slice()))
        },
        None => None,
    }
}

/// The text inside the first element with `class="<class>"`, up to the next
/// tag, trimmed; empty when there is none.
pub open spec fn spec_extract_div_class(block: Seq<char>, class: Seq<char>) -> Seq<char> {
    let pat = "class=\""@ + class + "\""@;
    match find(block, pat) {
        Some(p) => {
            let after = block.skip(p + pat.len());
            match find(after, seq!['>']) {
                Some(gt) => {
                    let inner = after.skip(gt + 1);
                    let inner_end = match find(inner, seq!['<']) {
                        Some(e) => e,
                        None => inner.len() as int,
                    };
                    trim(inner.take(inner_end))
                },
                None => Seq::empty(),
            }
        },
        None => Seq::empty(),
    }
}

/// The text of the first element with the given class.
pub fn extract_div_class(block: &str, class: &str) -> (r: String)
    ensures
        r@ == spec_extract_div_class(block@, class@),
{
    let b = chars_of(block);
    let mut pat = chars_of("class=\"");
    push_str(&mut pat, class);
    push_str(&mut pat, "\"");
    let after = match str_after_vec(b.as_slice(), pat.as_slice()) {
        Some(a) => a,
        None => {
            return String::new();
        },
    };
    let gt = one_char('>');
    proof {
        lemma_find_from(after@, seq!['>'], 0);
    }
    let g = match find_exec(after.as_slice(), gt.as_slice()) {
        Some(g) => g,
        None => {
            return String::new();
        },
    };
    let n = after.len();
    assert(g + 1 <= n);
    let inner = sub_vec(after.as_slice(), g + 1, n);
    let lt = one_char('<');
    proof {
        lemma_find_from(inner@, seq!['<'], 0);
    }
    let inner_end = match find_exec(inner.as_slice(), lt.as_slice()) {
        Some(e) => e,
        None => inner.len(),
    };
    let piece = sub_vec(inner.as_slice(), 0, inner_end);
    let t = trim_vec(piece.as_slice());
    string_of(t.as_slice())
}

// ----------------------------------------------------------------------------
// The reader's script
// ----------------------------------------------------------------------------

/// The text between the first two `"` of `entry`.
pub open spec fn spec_parse_first_string(entry: Seq<char>) -> Option<Seq<char>> {
    match find(entry, seq!['"']) {
        Some(q) => {
            let rest = entry.skip(q + 1);
            match find(rest, seq!['"']) {
                Some(end) => Some(rest.take(end)),
                None => None,
            }
        },
        None => None,
    }
}

fn first_string_vec(entry: &[char]) -> (r: Option<Vec<char>>)
    ensures
        match spec_parse_first_string(entry@) {
            Some(v) => r is Some && r->0@ == v,
            None => r is None,
        },
{
    let q = one_char('"');
    let rest = match str_after_vec(entry, q.as_slice()) {
        Some(r) => r,
        None => {
            return None;
        },
    };
    proof {
        lemma_find_from(rest@, seq!['"'], 0);
    }
    match find_exec(rest.as_slice(), q.as_slice()) {
        Some(end) => Some(sub_vec(rest.as_slice(), 0, end)),
        None => None,
    }
}

/// The first double-quoted string in `entry`.
pub fn parse_first_string(entry: &str) -> (r: Option<String>)
    ensures
        match spec_parse_first_string(entry@) {
            Some(v) => r is Some && r->0@ == v,
            None => r is None,
        },
{
    let e = chars_of(entry);
    match first_string_vec(e.as_slice()) {
        Some(v) => Some(string_of(v.as_slice())),
        None => None,
    }
}

/// The double-quoted value written after the first `<key>:` in a script
/// object (blanks before the quote allowed).
pub open spec fn spec_parse_js_string(obj: Seq<char>, key: Seq<char>) -> Option<Seq<char>> {
    match spec_str_after(obj, key + seq![':']) {
        Some(after) => {
            let rest = trim_start(after);
            if rest.len() > 0 && rest[0] == '"' {
                let inner = rest.drop_first();
                match find(inner, seq!['"']) {
                    Some(end) => Some(inner.take(end)),
                    None => None,
                }
            } else {
                None
            }
        },
        None => None,
    }
}

fn js_string_vec(obj: &[char], key: &str) -> (r: Option<Vec<char>>)
    ensures
        match spec_parse_js_string(obj@, key@) {
            Some(v) => r is Some && r->0@ == v,
            None => r is None,
        },
{
    let mut key_pat = chars_of(key);
    key_pat.push(':');
    assert(key_pat@ =~= key@ + seq![':']);
    let after = match str_after_vec(obj, key_pat.as_slice()) {
        Some(a) => a,
        None => {
            return None;
        },
    };
    let rest = trim_start_vec(after.as_slice());
    if rest.len() > 0 && rest[0] == '"' {
        let inner = sub_vec(rest.as_slice(), 1, rest.len());
        assert(inner@ == rest@.drop_first());
        let q = one_char('"');
        proof {
            lemma_find_from(inner@, seq!['"'], 0);
        }
        match find_exec(inner.as_slice(), q.as_slice()) {
            Some(end) => Some(sub_vec(inner.as_slice(), 0, end)),
            None => None,
        }
    } else {
        None
    }
}

/// The string value of `key` in a script object such as `{dir: "//..."}`.
pub fn parse_js_string(obj: &str, key: &str) -> (r: Option<String>)
    ensures
        match spec_parse_js_string(obj@, key@) {
            Some(v) => r is Some && r->0@ == v,
            None => r is None,
        },
{
    let o = chars_of(obj);
    match js_string_vec(o.as_slice(), key) {
        Some(v) => Some(string_of(v.as_slice())),
        None => None,
    }
}

/// Scanning `s` from `i` with `depth` braces open: the position of the `}`
/// that closes them all.
pub open spec fn brace_scan(s: Seq<char>, i: int, depth: int) -> Option<int>
    decreases s.len() - i,
{
    if i < 0 || i >= s.len() {
        None
    } else if s[i] == '{' {
        brace_scan(s, i + 1, depth + 1)
    } else if s[i] == '}' {
        if depth - 1 == 0 {
            Some(i)
        } else {
            brace_scan(s, i + 1, depth - 1)
        }
    } else {
        brace_scan(s, i + 1, depth)
    }
}

/// The scan meets a `}` with no brace open before it ends.
pub open spec fn brace_scan_underflows(s: Seq<char>, i: int, depth: int) -> bool
    decreases s.len() - i,
{
    if i < 0 || i >= s.len() {
        false
    } else if s[i] == '{' {
        brace_scan_underflows(s, i + 1, depth + 1)
    } else if s[i] == '}' {
        if depth == 0 {
            true
        } else if depth - 1 == 0 {
            false
        } else {
            brace_scan_underflows(s, i + 1, depth - 1)
        }
    } else {
        brace_scan_underflows(s, i + 1, depth)
    }
}

proof fn lemma_brace_scan_from_open(s: Seq<char>, i: int, depth: int)
    requires
        depth >= 1,
    ensures
        !brace_scan_underflows(s, i, depth),
        brace_scan(s, i, depth) matches Some(k) ==> i <= k < s.len() && s[k] == '}',
    decreases s.len() - i,
{
    if i < 0 || i >= s.len() {
    } else if s[i] == '{' {
        lemma_brace_scan_from_open(s, i + 1, depth + 1);
    } else if s[i] == '}' {
        if depth - 1 != 0 {
            lemma_brace_scan_from_open(s, i + 1, depth - 1);
        }
    } else {
        lemma_brace_scan_from_open(s, i + 1, depth);
    }
}

/// The position of the `}` matching the `{` at `open` (braces counted from
/// `open` on). Positions count characters.
pub fn find_matching_brace(s: &[char], open: usize) -> (r: Option<usize>)
    requires
        open <= s@.len(),
        !brace_scan_underflows(s@, open as int, 0),
    ensures
        opt_int(r) == brace_scan(s@, open as int, 0),
{
    let mut depth: usize = 0;
    let mut i = open;
    while i < s.len()
        invariant
            open <= i <= s@.len(),
            depth <= i - open,
            brace_scan(s@, open as int, 0) == brace_scan(s@, i as int, depth as int),
            !brace_scan_underflows(s@, i as int, depth as int),
        decreases s@.len() - i,
    {
        let c = s[i];
        if c == '{' {
            depth = depth + 1;
        } else if c == '}' {
            depth = depth - 1;
            if depth == 0 {
                return Some(i);
            }
        }
        i = i + 1;
    }
    None
}

/// The image file names listed in the reader's `images: [[...], ...]` array
/// from `pos` on: the first quoted string of each inner list, cut at `?`; the
/// list ends at the first inner list followed by `]`.
pub open spec fn reader_images_from(arr: Seq<char>, pos: int) -> Seq<Seq<char>>
    decreases arr.len() - pos,
{
    if pos < 0 || pos > arr.len() {
        Seq::empty()
    } else {
        match find_from(arr, seq!['['], pos) {
            None => Seq::empty(),
            Some(a) => match find_from(arr, seq![']'], a + 1) {
                None => Seq::empty(),
                Some(e) => {
                    proof {
                        lemma_find_from(arr, seq!['['], pos);
                        lemma_find_from(arr, seq![']'], a + 1);
                    }
                    let names = match spec_parse_first_string(arr.subrange(a + 1, e)) {
                        Some(f) => seq![before_char(f, '?')],
                        None => Seq::empty(),
                    };
                    if starts_with(arr.skip(e + 1), seq![']']) {
                        names
                    } else {
                        names + reader_images_from(arr, e + 1)
                    }
                },
            },
        }
    }
}

/// The reader's setup call: the image directory (made absolute for `//`
/// addresses) and the image file names.
pub open spec fn spec_parse_reader_init(html: Seq<char>) -> Option<(Seq<char>, Seq<Seq<char>>)> {
    match find(html, "Reader.init("@) {
        None => None,
        Some(init_pos) => match find_from(html, seq!['{'], init_pos) {
            None => None,
            Some(obj_start) => match brace_scan(html, obj_start, 0) {
                None => None,
                Some(obj_end) => {
                    let obj = html.subrange(obj_start, obj_end + 1);
                    match spec_parse_js_string(obj, "dir"@) {
                        None => None,
                        Some(dir) => {
                            let dir = if starts_with(dir, "//"@) {
                                "https:"@ + dir
                            } else {
                                dir
                            };
                            match find(obj, "images:"@) {
                                None => None,
                                Some(images_pos) => match find_from(obj, seq!['['], images_pos) {
                                    None => None,
                                    Some(b) => Some((dir, reader_images_from(obj.skip(b + 1), 0))),
                                },
                            }
                        },
                    }
                },
            },
        },
    }
}

fn reader_images_vec(arr: &[char]) -> (r: Vec<Vec<char>>)
    ensures
        piece_views(r@) == reader_images_from(arr@, 0),
{
    let open = one_char('[');
    let close = one_char(']');
    let mut names: Vec<Vec<char>> = Vec::new();
    let mut pos: usize = 0;
    while pos <= arr.len()
        invariant
            pos <= arr@.len(),
            open@ == seq!['['],
            close@ == seq![']'],
            piece_views(names@) + reader_images_from(arr@, pos as int) == reader_images_from(arr@, 0),
        decreases arr@.len() - pos,
    {
        proof {
            lemma_find_from(arr@, seq!['['], pos as int);
        }
        let a = match find_from_exec(arr, open.as_slice(), pos) {
            Some(a) => a,
            None => {
                assert(piece_views(names@) + Seq::<Seq<char>>::empty() == piece_views(names@));
                return names;
            },
        };
        proof {
            lemma_find_from(arr@, seq![']'], a + 1);
        }
        let e = match find_from_exec(arr, close.as_slice(), a + 1) {
            Some(e) => e,
            None => {
                assert(piece_views(names@) + Seq::<Seq<char>>::empty() == piece_views(names@));
                return names;
            },
        };
        let entry = sub_vec(arr, a + 1, e);
        let ghost before = names@;
        match first_string_vec(entry.as_slice()) {
            Some(f) => {
                let cut = before_char_vec(f.as_slice(), '?');
                names.push(cut);
                assert(piece_views(names@) == piece_views(before).push(cut@));
            },
            None => {},
        }
        let n = arr.len();
        assert(e + 1 <= n);
        let tail = sub_vec(arr, e + 1, n);
        if starts_with_exec(tail.as_slice(), close.as_slice()) {
            assert(piece_views(names@) + Seq::<Seq<char>>::empty() =~= piece_views(names@));
            return names;
        }
        pos = e + 1;
    }
    names
}

/// The image directory and file names the reader page sets up with
/// `Reader.init({... dir: "...", images: [["name", ...], ...] ...})`.
pub fn parse_reader_init(html: &str) -> (r: Option<(String, Vec<String>)>)
    ensures
        match spec_parse_reader_init(html@) {
            Some((dir, names)) => match r {
                Some((d, ns)) => d@ == dir && string_views(ns@) == names,
                None => false,
            },
            None => r is None,
        },
{
    let h = chars_of(html);
    let init = chars_of("Reader.init(");
    let init_pos = match find_exec(h.as_slice(), init.as_slice()) {
        Some(p) => p,
        None => {
            return None;
        },
    };
    let brace = one_char('{');
    proof {
        lemma_find_from(h@, seq!['{'], init_pos as int);
    }
    let obj_start = match find_from_exec(h.as_slice(), brace.as_slice(), init_pos) {
        Some(p) => p,
        None => {
            return None;
        },
    };
    proof {
        assert(h@[obj_start + 0] == seq!['{'][0]);
        lemma_brace_scan_from_open(h@, obj_start + 1, 1);
        assert(brace_scan(h@, obj_start as int, 0) == brace_scan(h@, obj_start + 1, 1));
    }
    let obj_end = match find_matching_brace(h.as_slice(), obj_start) {
        Some(e) => e,
        None => {
            return None;
        },
    };
    let obj = sub_vec(h.as_slice(), obj_start, obj_end + 1);
    let dir = match js_string_vec(obj.as_slice(), "dir") {
        Some(d) => d,
        None => {
            return None;
        },
    };
    let slashes = chars_of("//");
    let dir = if starts_with_exec(dir.as_slice(), slashes.as_slice()) {
        let mut d = chars_of("https:");
        push_all(&mut d, dir.as_slice());
        d
    } else {
        dir
    };
    let images = chars_of("images:");
    let images_pos = match find_exec(obj.as_slice(), images.as_slice()) {
        Some(p) => p,
        None => {
            return None;
        },
    };
    let open = one_char('[');
    proof {
        lemma_find_from(obj@, seq!['['], images_pos as int);
    }
    let b = match find_from_exec(obj.as_slice(), open.as_slice(), images_pos) {
        Some(b) => b,
        None => {
            return None;
        },
    };
    let n = obj.len();
    assert(b + 1 <= n);
    let arr = sub_vec(obj.as_slice(), b + 1, n);
    let names = reader_images_vec(arr.as_slice());
    Some((string_of(dir.as_slice()), strings_of(&names)))
}

// ----------------------------------------------------------------------------
// Chapter links on a title's page
// ----------------------------------------------------------------------------

/// A chapter address relative to the site: from `manga/` on when it holds
/// `/manga/`, else as it is.
pub open spec fn manga_relative(url: Seq<char>) -> Seq<char> {
    match find(url, "/manga/"@) {
        Some(i) => url.skip(i + 1),
        None => url,
    }
}

/// Whether a link (without trailing `/`) is a Russian chapter of the title.
pub open spec fn is_chapter_link(t: Seq<char>, needle: Seq<char>, needle_rel: Seq<char>) -> bool {
    (contains(t, needle) || contains(t, needle_rel)) && (ends_with(t, "/rus"@) || contains(
        t,
        "/rus/"@,
    ))
}

/// The chapter links in the `href="..."` attributes of `html` from `pos` on,
/// in page order, repeats included.
pub open spec fn chapter_link_candidates(
    html: Seq<char>,
    needle: Seq<char>,
    needle_rel: Seq<char>,
    pos: int,
) -> Seq<Seq<char>>
    decreases html.len() - pos,
{
    if pos < 0 || pos > html.len() {
        Seq::empty()
    } else {
        match find_from(html, "href=\""@, pos) {
            None => Seq::empty(),
            Some(h) => {
                let hs = h + "href=\""@.len();
                match find_from(html, seq!['"'], hs) {
                    None => Seq::empty(),
                    Some(he) => {
                        proof {
                            lemma_find_from(html, "href=\""@, pos);
                            lemma_find_from(html, seq!['"'], hs);
                        }
                        let t = trim_end_char(html.subrange(hs, he), '/');
                        let item = if is_chapter_link(t, needle, needle_rel) {
                            seq![manga_relative(t)]
                        } else {
                            Seq::empty()
                        };
                        item + chapter_link_candidates(html, needle, needle_rel, he + 1)
                    },
                }
            },
        }
    }
}

/// The Russian chapter paths a title's page links to (`manga/<slug.id>/vol...`
/// links ending in `/rus`), each once, in page order.
pub open spec fn spec_chapter_link_paths(html: Seq<char>, slug_id: Seq<char>) -> Seq<Seq<char>> {
    let slug = trim_end_char(slug_id, '/');
    dedup(
        chapter_link_candidates(html, "/manga/"@ + slug + "/vol"@, "manga/"@ + slug + "/vol"@, 0),
    )
}

pub fn manga_relative_vec(t: &[char]) -> (r: Vec<char>)
    ensures
        r@ == manga_relative(t@),
{
    let m = chars_of("/manga/");
    proof {
        lemma_find_from(t@, "/manga/"@, 0);
    }
    match find_exec(t, m.as_slice()) {
        Some(i) => {
            let n = t.len();
            assert(i + 1 <= n) by {
                reveal_strlit("/manga/");
            }
            sub_vec(t, i + 1, n)
        },
        None => copy_vec(t),
    }
}

/// The Russian chapter paths a title's page links to, each once, in page
/// order (they are sorted by volume and chapter afterwards).
pub fn chapter_link_paths(html: &str, slug_id: &str) -> (r: Vec<String>)
    ensures
        string_views(r@) == spec_chapter_link_paths(html@, slug_id@),
{
    let h = chars_of(html);
    let sid = chars_of(slug_id);
    let slug = trim_end_char_vec(sid.as_slice(), '/');
    let mut needle = chars_of("/manga/");
    push_all(&mut needle, slug.as_slice());
    push_str(&mut needle, "/vol");
    let mut needle_rel = chars_of("manga/");
    push_all(&mut needle_rel, slug.as_slice());
    push_str(&mut needle_rel, "/vol");
    let href = chars_of("href=\"");
    let q = one_char('"');
    let rus_end = chars_of("/rus");
    let rus_mid = chars_of("/rus/");
    let ghost all = chapter_link_candidates(h@, needle@, needle_rel@, 0);
    let ghost mut done: Seq<Seq<char>> = Seq::empty();
    let mut out: Vec<Vec<char>> = Vec::new();
    let mut pos: usize = 0;
    while pos <= h.len()
        invariant
            pos <= h@.len(),
            href@ == "href=\""@,
            q@ == seq!['"'],
            rus_end@ == "/rus"@,
            rus_mid@ == "/rus/"@,
            all == chapter_link_candidates(h@, needle@, needle_rel@, 0),
            all == done + chapter_link_candidates(h@, needle@, needle_rel@, pos as int),
            piece_views(out@) == dedup(done),
        ensures
            piece_views(out@) == dedup(all),
        decreases h@.len() - pos,
    {
        proof {
            lemma_find_from(h@, "href=\""@, pos as int);
        }
        let hpos = match find_from_exec(h.as_slice(), href.as_slice(), pos) {
            Some(p) => p,
            None => {
                assert(chapter_link_candidates(h@, needle@, needle_rel@, pos as int) =~= Seq::<Seq<char>>::empty());
                assert(done + Seq::<Seq<char>>::empty() =~= done);
                break;
            },
        };
        let hs = hpos + href.len();
        proof {
            lemma_find_from(h@, seq!['"'], hs as int);
        }
        let he = match find_from_exec(h.as_slice(), q.as_slice(), hs) {
            Some(e) => e,
            None => {
                assert(chapter_link_candidates(h@, needle@, needle_rel@, pos as int) =~= Seq::<Seq<char>>::empty());
                assert(done + Seq::<Seq<char>>::empty() =~= done);
                break;
            },
        };
        let url = sub_vec(h.as_slice(), hs, he);
        let t = trim_end_char_vec(url.as_slice(), '/');
        let is_link = (contains_exec(t.as_slice(), needle.as_slice()) || contains_exec(
            t.as_slice(),
            needle_rel.as_slice(),
        )) && (ends_with_exec(t.as_slice(), rus_end.as_slice()) || contains_exec(
            t.as_slice(),
            rus_mid.as_slice(),
        ));
        if is_link {
            let rel = manga_relative_vec(t.as_slice());
            let ghost before = done;
            proof {
                done = done.push(rel@);
                assert(done.drop_last() == before);
                assert(before + chapter_link_candidates(h@, needle@, needle_rel@, pos as int)
                    =~= done + chapter_link_candidates(h@, needle@, needle_rel@, he + 1));
            }
            if !contains_piece(&out, rel.as_slice()) {
                out.push(rel);
                assert(piece_views(out@) =~= dedup(before).push(rel@));
            }
        } else {
            assert(done + chapter_link_candidates(h@, needle@, needle_rel@, pos as int)
                =~= done + chapter_link_candidates(h@, needle@, needle_rel@, he + 1));
        }
        pos = he + 1;
    }
    strings_of(&out)
}

// ----------------------------------------------------------------------------
// Small decisions
// ----------------------------------------------------------------------------

/// The saved desu.uno session cookie, when there is a non-empty one.
pub fn session_cookie(config: &crate::config::Config) -> (r: Option<String>)
    ensures
        match config.desu_session {
            Some(s) => if s@.len() > 0 {
                r == Some(s)
            } else {
                r is None
            },
            None => r is None,
        },
{
    match &config.desu_session {
        Some(s) => {
            if s.as_str().unicode_len() > 0 {
                Some(s.clone())
            } else {
                None
            }
        },
        None => None,
    }
}

/// An answer that agrees: after trimming and lower-casing it starts with `y`
/// or `д`.
pub open spec fn spec_is_confirmation(input: Seq<char>) -> bool {
    let t = crate::text::spec_to_lowercase(trim(input));
    t.len() > 0 && (t[0] == 'y' || t[0] == 'д')
}

/// Whether the user's answer to a `[y/N]` question agrees.
pub fn is_confirmation(input: &str) -> (b: bool)
    ensures
        b == spec_is_confirmation(input@),
{
    let t = crate::text::trim_str(input);
    let l = crate::text::str_to_lowercase(t.as_str());
    let v = chars_of(l.as_str());
    v.len() > 0 && (v[0] == 'y' || v[0] == 'д')
}

/// The `slug.id` in a ranobe chapter's address: the piece after `/ranobe/`
/// up to the next `/`.
pub open spec fn spec_parse_slug_from_view_url(view_url: Seq<char>) -> Option<Seq<char>> {
    match spec_str_after(view_url, "/ranobe/"@) {
        Some(rest) => match find(rest, seq!['/']) {
            Some(end) => Some(rest.take(end)),
            None => None,
        },
        None => None,
    }
}

/// The `slug.id` of the ranobe a chapter address belongs to.
pub fn parse_slug_from_view_url(view_url: &str) -> (r: Option<String>)
    ensures
        match spec_parse_slug_from_view_url(view_url@) {
            Some(v) => r is Some && r->0@ == v,
            None => r is None,
        },
{
    let u = chars_of(view_url);
    let pat = chars_of("/ranobe/");
    let rest = match str_after_vec(u.as_slice(), pat.as_slice()) {
        Some(r) => r,
        None => {
            return None;
        },
    };
    let slash = one_char('/');
    proof {
        lemma_find_from(rest@, seq!['/'], 0);
    }
    match find_exec(rest.as_slice(), slash.as_slice()) {
        Some(end) => {
            let v = sub_vec(rest.as_slice(), 0, end);
            Some(string_of(v.as_slice()))
        },
        None => None,
    }
}

/// The message for a failed request: the site's known refusals (451, 403,
/// 404) explained, others as `HTTP <status>` with the status as printed.
pub open spec fn spec_status_error(lang: crate::i18n::Lang, code: u16, status_text: Seq<char>) -> Seq<char> {
    if code == 451 {
        crate::i18n::spec_rep(lang, STATUS_451@)
    } else if code == 403 {
        crate::i18n::spec_rep(lang, STATUS_403@)
    } else if code == 404 {
        crate::i18n::spec_rep(lang, STATUS_404@)
    } else {
        crate::i18n::fill_all(crate::i18n::spec_rep(lang, "HTTP {}"@), seq![status_text])
    }
}

/// The message for status 451.
pub const STATUS_451: &'static str = "HTTP 451 — title blocked by Roskomnadzor (149-FZ). Use 'search' to find an available slug.id.";

/// The message for status 403.
pub const STATUS_403: &'static str = "HTTP 403 — access denied (login may be required).";

/// The message for status 404.
pub const STATUS_404: &'static str = "HTTP 404 — title not found. Check slug.id via 'search'.";

/// The message for a failed request with status `code`, printed as
/// `status_text`.
pub fn status_error(lang: crate::i18n::Lang, code: u16, status_text: &str) -> (r: String)
    ensures
        r@ == spec_status_error(lang, code, status_text@),
{
    if code == 451 {
        crate::i18n::rep(lang, STATUS_451)
    } else if code == 403 {
        crate::i18n::rep(lang, STATUS_403)
    } else if code == 404 {
        crate::i18n::rep(lang, STATUS_404)
    } else {
        let mut args: Vec<&str> = Vec::new();
        args.push(status_text);
        let r = crate::i18n::repf(lang, "HTTP {}", args.as_slice());
        assert(crate::i18n::arg_views(args@) =~= seq![status_text@]);
        r
    }
}

// ----------------------------------------------------------------------------
// API answers
// ----------------------------------------------------------------------------

/// One error the site's API reports.
#[derive(Debug, Clone)]
pub struct ApiErrorItem {
    pub message: Option<String>,
}

/// A page of a manga chapter.
#[derive(Debug)]
pub struct ChapterApiPage {
    pub url: String,
}

/// A manga chapter as the API describes it.
#[derive(Debug)]
pub struct ChapterApiData {
    pub pages: Option<Vec<ChapterApiPage>>,
}

/// The API's answer about a manga chapter.
#[derive(Debug)]
pub struct ChapterApiResponse {
    pub chapter: Option<ChapterApiData>,
    pub errors: Option<Vec<ApiErrorItem>>,
    pub error: Option<Vec<String>>,
}

/// A JSON value that is a string or a number (with its printed form), or
/// something else.
#[derive(Debug, Clone)]
pub enum JsonScalar {
    Str(String),
    Num(String),
    Other,
}

impl JsonScalar {
    /// The value as text: the string itself, the number as printed, or empty.
    pub fn as_text(&self) -> (r: String)
        ensures
            r@ == match self {
                JsonScalar::Str(s) => s@,
                JsonScalar::Num(s) => s@,
                JsonScalar::Other => Seq::<char>::empty(),
            },
    {
        match self {
            JsonScalar::Str(s) => s.clone(),
            JsonScalar::Num(s) => s.clone(),
            JsonScalar::Other => String::new(),
        }
    }
}

/// A ranobe chapter in the list the API gives.
#[derive(Debug, Clone)]
pub struct RanobeChapterItem {
    pub id: u64,
    pub volume: JsonScalar,
    pub number: JsonScalar,
    pub title: Option<String>,
    pub chapter_type: Option<String>,
    pub view_url: Option<String>,
}

impl RanobeChapterItem {
    /// The volume as text (empty when missing).
    pub fn volume_str(&self) -> (r: String)
        ensures
            r@ == match self.volume {
                JsonScalar::Str(s) => s@,
                JsonScalar::Num(s) => s@,
                JsonScalar::Other => Seq::<char>::empty(),
            },
    {
        self.volume.as_text()
    }

    /// The chapter number as text (empty when missing).
    pub fn number_str(&self) -> (r: String)
        ensures
            r@ == match self.number {
                JsonScalar::Str(s) => s@,
                JsonScalar::Num(s) => s@,
                JsonScalar::Other => Seq::<char>::empty(),
            },
    {
        self.number.as_text()
    }
}

/// The API's list of a ranobe's chapters.
#[derive(Debug)]
pub struct RanobeChaptersResponse {
    pub chapters: Option<Vec<RanobeChapterItem>>,
    pub errors: Option<Vec<ApiErrorItem>>,
    pub error: Option<Vec<String>>,
}

/// A piece of a ranobe chapter: text (HTML) or an image.
#[derive(Debug)]
pub struct RanobeChapterContentItem {
    pub item_type: String,
    pub html: Option<String>,
    pub url: Option<String>,
    pub media_type: Option<String>,
    pub position: Option<u32>,
}

/// A ranobe chapter with its content.
#[derive(Debug)]
pub struct RanobeChapterDetail {
    pub id: u64,
    pub volume: JsonScalar,
    pub number: JsonScalar,
    pub title: Option<String>,
    pub content: Option<Vec<RanobeChapterContentItem>>,
}

/// The API's answer about a ranobe chapter.
#[derive(Debug)]
pub struct RanobeChapterDetailResponse {
    pub chapter: Option<RanobeChapterDetail>,
    pub errors: Option<Vec<ApiErrorItem>>,
    pub error: Option<Vec<String>>,
}

/// The first message among the reported errors.
pub open spec fn first_message(errors: Seq<ApiErrorItem>) -> Option<String>
    decreases errors.len(),
{
    if errors.len() == 0 {
        None
    } else {
        match errors[0].message {
            Some(m) => Some(m),
            None => first_message(errors.drop_first()),
        }
    }
}

/// The message an API answer's errors give: the first message in `errors`,
/// else the first string in `error`.
pub open spec fn spec_api_error(errors: Option<Vec<ApiErrorItem>>, error: Option<Vec<String>>) -> Option<String> {
    let from_errors = match errors {
        Some(es) => first_message(es@),
        None => None,
    };
    if from_errors is Some {
        from_errors
    } else {
        match error {
            Some(es) => if es@.len() > 0 {
                Some(es@[0])
            } else {
                None
            },
            None => None,
        }
    }
}

fn first_message_of(es: &Vec<ApiErrorItem>) -> (r: Option<String>)
    ensures
        r == first_message(es@),
{
    let mut i: usize = 0;
    assert(es@.skip(0) == es@);
    while i < es.len()
        invariant
            i <= es@.len(),
            first_message(es@) == first_message(es@.skip(i as int)),
        decreases es@.len() - i,
    {
        assert(es@.skip(i as int).drop_first() == es@.skip(i + 1));
        assert(es@.skip(i as int)[0] == es@[i as int]);
        match &es[i].message {
            Some(m) => {
                return Some(m.clone());
            },
            None => {},
        }
        i = i + 1;
    }
    None
}

/// The message an API answer's errors give, if any.
pub fn api_error(errors: Option<Vec<ApiErrorItem>>, error: Option<Vec<String>>) -> (r: Option<String>)
    ensures
        r == spec_api_error(errors, error),
{
    let from_errors = match &errors {
        Some(es) => first_message_of(es),
        None => None,
    };
    if from_errors.is_some() {
        return from_errors;
    }
    match error {
        Some(es) => {
            if es.len() > 0 {
                Some(es[0].clone())
            } else {
                None
            }
        },
        None => None,
    }
}

/// The addresses of a manga chapter's pages from the API's answer: the page
/// addresses when there are any, else the reported error, else a message
/// saying no pages were found.
pub open spec fn spec_chapter_pages(resp: ChapterApiResponse, lang: crate::i18n::Lang) -> Result<Seq<Seq<char>>, Seq<char>> {
    let pages = match resp.chapter {
        Some(c) => match c.pages {
            Some(ps) => ps@.map_values(|p: ChapterApiPage| p.url@),
            None => Seq::empty(),
        },
        None => Seq::empty(),
    };
    if pages.len() > 0 {
        Ok(pages)
    } else {
        match spec_api_error(resp.errors, resp.error) {
            Some(m) => Err(m@),
            None => Err(crate::i18n::spec_rep(lang, "No pages found in chapter API response."@)),
        }
    }
}

/// The page addresses of a manga chapter, or why there are none.
pub fn chapter_pages(resp: ChapterApiResponse, lang: crate::i18n::Lang) -> (r: Result<Vec<String>, String>)
    ensures
        match spec_chapter_pages(resp, lang) {
            Ok(v) => r is Ok && string_views(r->Ok_0@) == v,
            Err(m) => r is Err && r->Err_0@ == m,
        },
{
    let ghost resp0 = resp;
    let ChapterApiResponse { chapter, errors, error } = resp;
    match chapter {
        Some(c) => match c.pages {
            Some(pages) => {
                let mut urls: Vec<String> = Vec::new();
                let mut i: usize = 0;
                while i < pages.len()
                    invariant
                        i <= pages@.len(),
                        string_views(urls@) == pages@.take(i as int).map_values(|p: ChapterApiPage| p.url@),
                    decreases pages@.len() - i,
                {
                    let u = pages[i].url.clone();
                    let ghost before = urls@;
                    urls.push(u);
                    assert(string_views(urls@) =~= string_views(before).push(u@));
                    assert(pages@.take(i + 1).map_values(|p: ChapterApiPage| p.url@) =~= pages@.take(
                        i as int,
                    ).map_values(|p: ChapterApiPage| p.url@).push(pages@[i as int].url@));
                    i = i + 1;
                }
                assert(pages@.take(pages@.len() as int) =~= pages@);
                if urls.len() > 0 {
                    return Ok(urls);
                }
            },
            None => {},
        },
        None => {},
    }
    match api_error(errors, error) {
        Some(m) => Err(m),
        None => Err(crate::i18n::rep(lang, "No pages found in chapter API response.")),
    }
}

/// A ranobe's chapter list from the API's answer: the list when there is one
/// (even empty), else the reported error, else a message saying none was
/// found.
pub fn ranobe_chapters(resp: RanobeChaptersResponse, lang: crate::i18n::Lang) -> (r: Result<Vec<RanobeChapterItem>, String>)
    ensures
        match resp.chapters {
            Some(cs) => r == Ok::<Vec<RanobeChapterItem>, String>(cs),
            None => match spec_api_error(resp.errors, resp.error) {
                Some(m) => r is Err && r->Err_0 == m,
                None => r is Err && r->Err_0@ == crate::i18n::spec_rep(
                    lang,
                    "No chapters found in ranobe chapters API response."@,
                ),
            },
        },
{
    match resp.chapters {
        Some(cs) => Ok(cs),
        None => match api_error(resp.errors, resp.error) {
            Some(m) => Err(m),
            None => Err(crate::i18n::rep(lang, "No chapters found in ranobe chapters API response.")),
        },
    }
}

/// A ranobe chapter's content from the API's answer: the chapter when
/// present, else the reported error, else a message saying it was missing.
pub fn ranobe_chapter_detail(resp: RanobeChapterDetailResponse, lang: crate::i18n::Lang) -> (r: Result<RanobeChapterDetail, String>)
    ensures
        match resp.chapter {
            Some(c) => r == Ok::<RanobeChapterDetail, String>(c),
            None => match spec_api_error(resp.errors, resp.error) {
                Some(m) => r is Err && r->Err_0 == m,
                None => r is Err && r->Err_0@ == crate::i18n::spec_rep(
                    lang,
                    "No chapter data in ranobe chapter content response."@,
                ),
            },
        },
{
    match resp.chapter {
        Some(c) => Ok(c),
        None => match api_error(resp.errors, resp.error) {
            Some(m) => Err(m),
            None => Err(crate::i18n::rep(lang, "No chapter data in ranobe chapter content response.")),
        },
    }
}

} // verus!
