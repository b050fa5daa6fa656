//! Names and settings used around HTTP downloads.
use vstd::prelude::*;
use vstd::utf8::encode_utf8;
use crate::text::{
    after_last_char, after_last_char_vec, before_char, before_char_vec, chars_of, contains, contains_exec, decimal, one_char,
    padded_decimal_vec, push_all, utf8_len_at_most, push_str, starts_with, starts_with_exec, string_of, sub_vec,
    zero_pad,
};

verus! {

/// Where to save a file whose wanted name is `name`, given whether a file of
/// that name already exists: `None` to use the name as is, or the next name
/// to try, which has one more `_` in front.
pub fn unique_dest(name: &str, exists: bool) -> (next: Option<String>)
    ensures
        !exists ==> next is None,
        exists ==> next is Some && next->0@ == "_"@ + name@,
{
    if !exists {
        None
    } else {
        let mut v: Vec<char> = Vec::new();
        push_str(&mut v, "_");
        push_str(&mut v, name);
        Some(string_of(v.as_slice()))
    }
}

/// The `User-Agent` the tool sends.
pub open spec fn spec_user_agent(version: Seq<char>) -> Seq<char> {
    "nymphalis/"@ + version + " (+https://github.com/BlucherSKK/nymphalis)"@
}

/// The `User-Agent` for a version of the tool.
pub fn user_agent(version: &str) -> (r: String)
    ensures
        r@ == spec_user_agent(version@),
{
    let mut v: Vec<char> = Vec::new();
    push_str(&mut v, "nymphalis/");
    push_str(&mut v, version);
    push_str(&mut v, " (+https://github.com/BlucherSKK/nymphalis)");
    string_of(v.as_slice())
}

/// A present, non-empty value.
pub open spec fn non_empty(o: Option<Seq<char>>) -> bool {
    o matches Some(s) && s.len() > 0
}

/// The proxy to use: the environment's value when set and non-empty, else
/// the saved one when non-empty.
pub open spec fn spec_choose_proxy(env_value: Option<Seq<char>>, saved: Option<Seq<char>>) -> Option<Seq<char>> {
    if non_empty(env_value) {
        env_value
    } else if non_empty(saved) {
        saved
    } else {
        None
    }
}

/// The text of an optional string.
pub open spec fn opt_string_view(o: Option<String>) -> Option<Seq<char>> {
    match o {
        Some(s) => Some(s@),
        None => None,
    }
}

/// The proxy to use, from the environment variable's value and the saved
/// setting.
pub fn choose_proxy(env_value: Option<String>, saved: Option<String>) -> (r: Option<String>)
    ensures
        opt_string_view(r) == spec_choose_proxy(opt_string_view(env_value), opt_string_view(saved)),
{
    match env_value {
        Some(v) => {
            if v.as_str().unicode_len() > 0 {
                return Some(v);
            }
        },
        None => {},
    }
    match saved {
        Some(v) => {
            if v.as_str().unicode_len() > 0 {
                Some(v)
            } else {
                None
            }
        },
        None => None,
    }
}

/// A proxy URL with `socks5://` turned into `socks5h://`, so names are
/// resolved through the proxy; other URLs are kept.
pub open spec fn spec_effective_proxy(url: Seq<char>) -> Seq<char> {
    if starts_with(url, "socks5://"@) {
        "socks5h://"@ + url.skip("socks5://"@.len() as int)
    } else {
        url
    }
}

/// The proxy URL actually used.
pub fn effective_proxy(url: &str) -> (r: String)
    ensures
        r@ == spec_effective_proxy(url@),
{
    let u = chars_of(url);
    let p = chars_of("socks5://");
    if starts_with_exec(u.as_slice(), p.as_slice()) {
        let mut v: Vec<char> = Vec::new();
        push_str(&mut v, "socks5h://");
        let rest = sub_vec(u.as_slice(), p.len(), u.len());
        push_all(&mut v, rest.as_slice());
        string_of(v.as_slice())
    } else {
        string_of(u.as_slice())
    }
}

/// The extension of a file path or address: the part after the last `.`,
/// when it is at most 5 bytes long (in UTF-8) and holds no `/`; `jpg`
/// otherwise.
pub open spec fn spec_ext_or_jpg(path: Seq<char>) -> Seq<char> {
    let e = after_last_char(path, '.');
    if encode_utf8(e).len() <= 5 && !contains(e, seq!['/']) {
        e
    } else {
        "jpg"@
    }
}

/// The extension a downloaded file is saved with.
pub fn ext_or_jpg(path: &str) -> (r: String)
    ensures
        r@ == spec_ext_or_jpg(path@),
{
    let p = chars_of(path);
    let e = after_last_char_vec(p.as_slice(), '.');
    let slash = one_char('/');
    if utf8_len_at_most(e.as_slice(), 5) && !contains_exec(e.as_slice(), slash.as_slice()) {
        string_of(e.as_slice())
    } else {
        let j = chars_of("jpg");
        string_of(j.as_slice())
    }
}

/// The name of the `n`-th page (from 1) of a chapter: the number in four
/// digits, a dot, the extension.
pub open spec fn spec_page_file_name(n: u64, ext: Seq<char>) -> Seq<char> {
    zero_pad(decimal(n as nat), 4) + seq!['.'] + ext
}

/// The file name of page `n` (counted from 1), such as `0007.png`.
pub fn page_file_name(n: u64, ext: &str) -> (r: String)
    ensures
        r@ == spec_page_file_name(n, ext@),
{
    let mut v = padded_decimal_vec(n, 4);
    v.push('.');
    push_str(&mut v, ext);
    string_of(v.as_slice())
}

/// The file name of page `n` of a chapter whose image is at `url`: the
/// extension is read from the address without its query.
pub open spec fn spec_page_file_for_url(n: u64, url: Seq<char>) -> Seq<char> {
    spec_page_file_name(n, spec_ext_or_jpg(before_char(url, '?')))
}

/// The file name page `n` (counted from 1) is saved under, for the image at
/// `url`.
pub fn page_file_for_url(n: u64, url: &str) -> (r: String)
    ensures
        r@ == spec_page_file_for_url(n, url@),
{
    let u = chars_of(url);
    let clean = before_char_vec(u.as_slice(), '?');
    let clean_s = string_of(clean.as_slice());
    let ext = ext_or_jpg(clean_s.as_str());
    page_file_name(n, ext.as_str())
}

} // verus!
