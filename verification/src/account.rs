//! desu.uno accounts and answers: who a session belongs to, and the HTML a
//! JSON answer carries.
use vstd::prelude::*;
use vstd::utf8::encode_scalar;
use crate::text::{
    chars_of, contains, contains_exec, find, find_exec, lemma_find_from, one_char, push_str,
    string_of, sub_vec, trim, trim_vec, utf8_width,
};
use crate::i18n::{arg_views, fill_all, repf, spec_rep, Lang};

verus! {

// ----------------------------------------------------------------------------
// The user name on a logged-in page
// ----------------------------------------------------------------------------

/// The characters of `r` from `j` on that fit, after `used` bytes, within
/// `limit` bytes of UTF-8: the end of the window, or `None` when the limit
/// falls inside a character.
pub open spec fn window_end(r: Seq<char>, j: int, used: int, limit: int) -> Option<int>
    decreases r.len() - j,
{
    if j < 0 || j >= r.len() {
        Some(r.len() as int)
    } else {
        let w = encode_scalar(r[j] as u32).len() as int;
        if used + w <= limit {
            window_end(r, j + 1, used + w, limit)
        } else if used == limit {
            Some(j)
        } else {
            None
        }
    }
}

/// The markers the account link is looked for after, in order.
pub open spec fn account_marker(i: int) -> Seq<char> {
    if i == 0 {
        "p-navgroup-link--user"@
    } else if i == 1 {
        "class=\"username\""@
    } else {
        "AccountMenu"@
    }
}

/// What the first `marker` of `html` says of the user name: look at the
/// 300 bytes from the marker on, take the text between the first `>` and
/// the next `<` there, trimmed; it is the name when not empty and free of
/// `{`. `Some(None)` when there is no name there; `None` when the 300-byte
/// window would end inside a character.
pub open spec fn marker_name(html: Seq<char>, marker: Seq<char>) -> Option<Option<Seq<char>>> {
    match find(html, marker) {
        None => Some(None),
        Some(pos) => {
            let rest = html.skip(pos);
            match window_end(rest, 0, 0, 300) {
                None => None,
                Some(e) => {
                    let window = rest.take(e);
                    match find(window, seq!['>']) {
                        None => Some(None),
                        Some(a) => {
                            let after = window.skip(a + 1);
                            match find(after, seq!['<']) {
                                None => Some(None),
                                Some(end) => {
                                    let name = trim(after.take(end));
                                    if name.len() > 0 && !contains(name, seq!['{']) {
                                        Some(Some(name))
                                    } else {
                                        Some(None)
                                    }
                                },
                            }
                        },
                    }
                },
            }
        },
    }
}

/// The user name a page shows, trying the markers in order from `i` on:
/// `Some(name)` or `Some(None)` for none; `None` when a window looked at
/// would end inside a character.
pub open spec fn names_from(html: Seq<char>, i: int) -> Option<Option<Seq<char>>>
    decreases 3 - i,
{
    if i < 0 || i >= 3 {
        Some(None)
    } else {
        match marker_name(html, account_marker(i)) {
            None => None,
            Some(Some(n)) => Some(Some(n)),
            Some(None) => names_from(html, i + 1),
        }
    }
}

/// The user name a page shows, if the search for it stays on character
/// boundaries.
pub open spec fn spec_username(html: Seq<char>) -> Option<Option<Seq<char>>> {
    names_from(html, 0)
}

fn window_end_exec(r: &[char], limit: usize) -> (e: Option<usize>)
    ensures
        match e {
            Some(k) => window_end(r@, 0, 0, limit as int) == Some(k as int) && k <= r@.len(),
            None => window_end(r@, 0, 0, limit as int) is None,
        },
{
    let mut j: usize = 0;
    let mut used: usize = 0;
    while j < r.len()
        invariant
            j <= r@.len(),
            used <= limit,
            window_end(r@, 0, 0, limit as int) == window_end(r@, j as int, used as int, limit as int),
        decreases r@.len() - j,
    {
        let w = utf8_width(r[j]);
        if w <= limit - used {
            used = used + w;
            j = j + 1;
        } else if used == limit {
            return Some(j);
        } else {
            return None;
        }
    }
    Some(j)
}

fn marker_name_exec(html: &[char], marker: &str) -> (r: Option<Option<Vec<char>>>)
    ensures
        match r {
            None => marker_name(html@, marker@) is None,
            Some(None) => marker_name(html@, marker@) == Some(None::<Seq<char>>),
            Some(Some(v)) => marker_name(html@, marker@) == Some(Some(v@)),
        },
{
    let m = chars_of(marker);
    proof {
        lemma_find_from(html@, marker@, 0);
    }
    let pos = match find_exec(html, m.as_slice()) {
        Some(p) => p,
        None => {
            return Some(None);
        },
    };
    let rest = sub_vec(html, pos, html.len());
    assert(rest@ == html@.skip(pos as int));
    let e = match window_end_exec(rest.as_slice(), 300) {
        Some(e) => e,
        None => {
            return None;
        },
    };
    let window = sub_vec(rest.as_slice(), 0, e);
    assert(window@ == rest@.take(e as int));
    let gt = one_char('>');
    proof {
        lemma_find_from(window@, seq!['>'], 0);
    }
    let a = match find_exec(window.as_slice(), gt.as_slice()) {
        Some(a) => a,
        None => {
            return Some(None);
        },
    };
    let after = sub_vec(window.as_slice(), a + 1, window.len());
    assert(after@ == window@.skip(a + 1));
    let lt = one_char('<');
    proof {
        lemma_find_from(after@, seq!['<'], 0);
    }
    let end = match find_exec(after.as_slice(), lt.as_slice()) {
        Some(x) => x,
        None => {
            return Some(None);
        },
    };
    let piece = sub_vec(after.as_slice(), 0, end);
    let name = trim_vec(piece.as_slice());
    let brace = one_char('{');
    if name.len() > 0 && !contains_exec(name.as_slice(), brace.as_slice()) {
        Some(Some(name))
    } else {
        Some(None)
    }
}

fn username_outcome(html: &str) -> (r: Option<Option<String>>)
    ensures
        match r {
            None => spec_username(html@) is None,
            Some(None) => spec_username(html@) == Some(None::<Seq<char>>),
            Some(Some(s)) => spec_username(html@) == Some(Some(s@)),
        },
{
    let h = chars_of(html);
    let mut i: usize = 0;
    while i < 3
        invariant
            i <= 3,
            h@ == html@,
            spec_username(html@) == names_from(html@, i as int),
        decreases 3 - i,
    {
        let marker = if i == 0 {
            "p-navgroup-link--user"
        } else if i == 1 {
            "class=\"username\""
        } else {
            "AccountMenu"
        };
        assert(marker@ == account_marker(i as int));
        match marker_name_exec(h.as_slice(), marker) {
            None => {
                return None;
            },
            Some(Some(n)) => {
                return Some(Some(string_of(n.as_slice())));
            },
            Some(None) => {},
        }
        i = i + 1;
    }
    Some(None)
}

/// Whether looking for the user name on `html` would cut a character apart
/// at the end of a 300-byte window (the search cannot be made on such a
/// page).
pub fn username_window_splits(html: &str) -> (b: bool)
    ensures
        b == (spec_username(html@) is None),
{
    username_outcome(html).is_none()
}

/// The user name shown by the account link of a logged-in page: after the
/// first marker found, the text of the element that follows, within 300
/// bytes, trimmed, when it is not empty and holds no `{`.
pub fn extract_xenforo_username(html: &str) -> (r: Option<String>)
    requires
        spec_username(html@) is Some,
    ensures
        match spec_username(html@) {
            Some(Some(n)) => r is Some && r->0@ == n,
            _ => r is None,
        },
{
    match username_outcome(html) {
        Some(n) => n,
        None => None,
    }
}

/// Who a session belongs to, from the home page it is served: nobody when
/// the page does not say `LoggedIn`; else the name shown, or
/// `(authenticated)` when none is.
pub open spec fn spec_session_user(page: Seq<char>) -> Option<Seq<char>> {
    if !contains(page, "LoggedIn"@) {
        None
    } else {
        match spec_username(page) {
            Some(Some(n)) => Some(n),
            _ => Some("(authenticated)"@),
        }
    }
}

/// Who a session belongs to, judging by the home page served with it.
pub fn session_user(page: &str) -> (r: Option<String>)
    requires
        contains(page@, "LoggedIn"@) ==> spec_username(page@) is Some,
    ensures
        match spec_session_user(page@) {
            Some(n) => r is Some && r->0@ == n,
            None => r is None,
        },
{
    let p = chars_of(page);
    let mark = chars_of("LoggedIn");
    if !contains_exec(p.as_slice(), mark.as_slice()) {
        return None;
    }
    match extract_xenforo_username(page) {
        Some(n) => Some(n),
        None => {
            let v = chars_of("(authenticated)");
            Some(string_of(v.as_slice()))
        },
    }
}

// ----------------------------------------------------------------------------
// The HTML a JSON answer carries
// ----------------------------------------------------------------------------

/// The string member `key` of the JSON document `body`: `Ok(None)` when
/// the document has no such member or it is not a string, `Err` with the
/// parser's message when `body` is not JSON.
pub uninterp spec fn json_string_member(body: Seq<char>, key: Seq<char>) -> Result<Option<Seq<char>>, Seq<char>>;

/// Parses `body` with `serde_json::from_str` into a `serde_json::Value`
/// and reads the string member `key`; a parse error is given as its
/// message (`to_string`).
///
/// Trusted: the result is named by `json_string_member`, which nothing here
/// defines.
#[verifier::external_body]
fn string_member(body: &str, key: &str) -> (r: Result<Option<String>, String>)
    ensures
        match r {
            Ok(Some(s)) => json_string_member(body@, key@) == Ok::<Option<Seq<char>>, Seq<char>>(Some(s@)),
            Ok(None) => json_string_member(body@, key@) == Ok::<Option<Seq<char>>, Seq<char>>(None),
            Err(e) => json_string_member(body@, key@) == Err::<Option<Seq<char>>, Seq<char>>(e@),
        },
{
    match serde_json::from_str::<serde_json::Value>(body) {
        Ok(v) => Ok(v[key].as_str().map(|s| s.to_string())),
        Err(e) => Err(e.to_string()),
    }
}

/// The message given when an answer is not JSON.
pub open spec fn parse_failure(lang: Lang, err: Seq<char>, body: Seq<char>) -> Seq<char> {
    fill_all(spec_rep(lang, "Failed to parse JSON: {}\nServer response: {}"@), seq![err, body])
}

/// What an answer's `templateHtml` member gives: the HTML, or why there is
/// none.
pub open spec fn spec_template_html(parsed: Result<Option<Seq<char>>, Seq<char>>, lang: Lang, body: Seq<char>) -> Result<Seq<char>, Seq<char>> {
    match parsed {
        Err(e) => Err(parse_failure(lang, e, body)),
        Ok(Some(h)) => Ok(h),
        Ok(None) => Err("templateHtml missing in response"@),
    }
}

/// The HTML of an answer, given what reading its `templateHtml` member gave.
pub fn template_html_from(parsed: Result<Option<String>, String>, lang: Lang, body: &str) -> (r: Result<String, String>)
    ensures
        match spec_template_html(
            match parsed {
                Ok(Some(s)) => Ok(Some(s@)),
                Ok(None) => Ok(None),
                Err(e) => Err(e@),
            },
            lang,
            body@,
        ) {
            Ok(h) => r is Ok && r->Ok_0@ == h,
            Err(m) => r is Err && r->Err_0@ == m,
        },
{
    match parsed {
        Err(e) => {
            let mut args: Vec<&str> = Vec::new();
            args.push(e.as_str());
            args.push(body);
            let m = repf(lang, "Failed to parse JSON: {}\nServer response: {}", args.as_slice());
            assert(arg_views(args@) =~= seq![e@, body@]);
            Err(m)
        },
        Ok(Some(h)) => Ok(h),
        Ok(None) => {
            let v = chars_of("templateHtml missing in response");
            Err(string_of(v.as_slice()))
        },
    }
}

/// The HTML a search answer (JSON) carries in its `templateHtml` member.
pub fn template_html_full(body: &str, lang: Lang) -> (r: Result<String, String>)
    ensures
        match spec_template_html(json_string_member(body@, "templateHtml"@), lang, body@) {
            Ok(h) => r is Ok && r->Ok_0@ == h,
            Err(m) => r is Err && r->Err_0@ == m,
        },
{
    let parsed = string_member(body, "templateHtml");
    template_html_from(parsed, lang, body)
}

} // verus!
