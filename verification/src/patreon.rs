//! patreon.com: the API's addresses, the files a creator's posts offer and
//! which of them to fetch, and the subscriptions an account has.
use vstd::prelude::*;
use vstd::utf8::encode_utf8;
use crate::text::{
    after_last_char, after_last_char_vec, before_char, before_char_vec, char_is_alphanumeric,
    chars_of, collapse_ws, collapse_ws_vec, eq_chars, push_str, is_alnum, string_of,
    string_views,
};
use crate::json::{
    as_array, as_i64, as_str, deref_opt, get, get_in, array_in, i64_in, str_in, JsonValue,
};
use crate::i18n::{spec_rep, rep, Lang};

verus! {

/// The API's address.
pub const API: &'static str = "https://www.patreon.com/api";

// ----------------------------------------------------------------------------
// Encoding and names
// ----------------------------------------------------------------------------

/// An ASCII letter or digit.
pub open spec fn ascii_alnum(b: u8) -> bool {
    (65 <= b <= 90) || (97 <= b <= 122) || (48 <= b <= 57)
}

/// The uppercase hexadecimal digit for `d` (below 16).
pub open spec fn hex_upper(d: int) -> char {
    if d < 10 {
        (48 + d) as char
    } else {
        (55 + d) as char
    }
}

/// The bytes `bs` with every byte but ASCII letters and digits written as
/// `%` and two uppercase hexadecimal digits.
pub open spec fn encode_non_alnum(bs: Seq<u8>) -> Seq<char>
    decreases bs.len(),
{
    if bs.len() == 0 {
        Seq::empty()
    } else {
        let b = bs.last();
        encode_non_alnum(bs.drop_last()) + if ascii_alnum(b) {
            seq![b as char]
        } else {
            seq!['%', hex_upper((b / 16) as int), hex_upper((b % 16) as int)]
        }
    }
}

/// Calls `percent_encoding::utf8_percent_encode` with the
/// `NON_ALPHANUMERIC` set and prints the result.
///
/// Trusted: the crate encodes each UTF-8 byte of `s` that is not an ASCII
/// letter or digit as `%XX` with uppercase hexadecimal digits (its byte
/// table and `NON_ALPHANUMERIC` set), and copies the others.
#[verifier::external_body]
pub(crate) fn percent_encode(s: &str) -> (r: String)
    ensures
        r@ == encode_non_alnum(encode_utf8(s@)),
{
    percent_encoding::utf8_percent_encode(s, percent_encoding::NON_ALPHANUMERIC).to_string()
}

/// A character kept in a file name: alphanumeric, or one of `.-_()[] `.
pub open spec fn name_char_kept(c: char) -> bool {
    is_alnum(c) || c == '.' || c == '-' || c == '_' || c == '(' || c == ')' || c == '['
        || c == ']' || c == ' '
}

/// `s` with every other character replaced by `_`.
pub open spec fn name_chars(s: Seq<char>) -> Seq<char> {
    s.map_values(|c: char| if name_char_kept(c) {
        c
    } else {
        '_'
    })
}

/// A file name made safe: unwanted characters replaced by `_`, then its
/// words joined by single spaces.
pub open spec fn spec_sanitize_filename(s: Seq<char>) -> Seq<char> {
    collapse_ws(name_chars(s))
}

/// A file name made safe to save under.
pub fn sanitize_filename(s: &str) -> (r: String)
    ensures
        r@ == spec_sanitize_filename(s@),
{
    let v = chars_of(s);
    let mut m: Vec<char> = Vec::new();
    let mut i: usize = 0;
    while i < v.len()
        invariant
            i <= v@.len(),
            m@ == name_chars(v@.take(i as int)),
        decreases v@.len() - i,
    {
        let c = v[i];
        let keep = char_is_alphanumeric(c) || c == '.' || c == '-' || c == '_' || c == '(' || c == ')'
            || c == '[' || c == ']' || c == ' ';
        if keep {
            m.push(c);
        } else {
            m.push('_');
        }
        assert(name_chars(v@.take(i + 1)) =~= name_chars(v@.take(i as int)).push(
            if name_char_kept(c) {
                c
            } else {
                '_'
            },
        ));
        i = i + 1;
    }
    assert(v@.take(v@.len() as int) =~= v@);
    let r = collapse_ws_vec(m.as_slice());
    string_of(r.as_slice())
}

// ----------------------------------------------------------------------------
// Addresses and messages
// ----------------------------------------------------------------------------

/// The address that finds a creator's campaign by vanity name.
pub open spec fn spec_campaign_url(vanity: Seq<char>) -> Seq<char> {
    API@ + "/campaigns?filter[vanity]="@ + encode_non_alnum(encode_utf8(vanity))
}

/// The address that finds a creator's campaign by vanity name.
pub fn campaign_url(vanity: &str) -> (r: String)
    ensures
        r@ == spec_campaign_url(vanity@),
{
    let mut v = chars_of(API);
    push_str(&mut v, "/campaigns?filter[vanity]=");
    let e = percent_encode(vanity);
    push_str(&mut v, e.as_str());
    string_of(v.as_slice())
}

/// The address of a page of a campaign's posts with their media, newest
/// first, 12 to a page; after the first page, from the cursor the previous
/// one gave.
pub open spec fn spec_posts_url(campaign_id: Seq<char>, cursor: Option<Seq<char>>) -> Seq<char> {
    let base = API@ + "/posts?filter[campaign_id]="@ + campaign_id
        + "&filter[is_draft]=false&include=images,attachments,audio,media&fields[post]=title&fields[media]=file_name,image_urls,download_url&fields[attachment]=name,url&fields[audio]=download_url&page[count]=12&sort=-published_at"@;
    match cursor {
        Some(c) => base + "&page[cursor]="@ + c,
        None => base,
    }
}

/// The address of a page of a campaign's posts.
pub fn posts_url(campaign_id: &str, cursor: Option<&str>) -> (r: String)
    ensures
        r@ == spec_posts_url(campaign_id@, match cursor {
            Some(c) => Some(c@),
            None => None,
        }),
{
    let mut v = chars_of(API);
    push_str(&mut v, "/posts?filter[campaign_id]=");
    push_str(&mut v, campaign_id);
    push_str(
        &mut v,
        "&filter[is_draft]=false&include=images,attachments,audio,media&fields[post]=title&fields[media]=file_name,image_urls,download_url&fields[attachment]=name,url&fields[audio]=download_url&page[count]=12&sort=-published_at",
    );
    match cursor {
        Some(c) => {
            push_str(&mut v, "&page[cursor]=");
            push_str(&mut v, c);
        },
        None => {},
    }
    string_of(v.as_slice())
}

/// The cookie a saved session value is sent as.
pub open spec fn spec_session_cookie(value: Seq<char>) -> Seq<char> {
    "session_id="@ + value
}

/// The cookie a session value is sent as, `session_id=<value>`.
pub fn session_cookie(value: &str) -> (r: String)
    ensures
        r@ == spec_session_cookie(value@),
{
    let mut v = chars_of("session_id=");
    push_str(&mut v, value);
    string_of(v.as_slice())
}

/// The message for an API answer with a failure status.
pub open spec fn spec_status_message(lang: Lang, code: u16) -> Seq<char> {
    if code == 401 {
        spec_rep(lang, "session expired or not logged in — run: nymphalis patreon login"@)
    } else {
        crate::i18n::fill_all(spec_rep(lang, "HTTP {}"@), seq![crate::text::decimal(code as nat)])
    }
}

/// The message for an API answer with failure status `code`.
pub fn status_message(lang: Lang, code: u16) -> (r: String)
    ensures
        r@ == spec_status_message(lang, code),
{
    if code == 401 {
        rep(lang, "session expired or not logged in — run: nymphalis patreon login")
    } else {
        let d = string_of(crate::text::decimal_vec(code as u64).as_slice());
        let mut args: Vec<&str> = Vec::new();
        args.push(d.as_str());
        let r = crate::i18n::repf(lang, "HTTP {}", args.as_slice());
        assert(crate::i18n::arg_views(args@) =~= seq![d@]);
        r
    }
}

// ----------------------------------------------------------------------------
// Reading answers
// ----------------------------------------------------------------------------

/// The text at `v`'s members `a`, then `b`, then `c`.
pub open spec fn str_at3(v: Option<JsonValue>, a: Seq<char>, b: Seq<char>, c: Seq<char>) -> Option<Seq<char>> {
    as_str(get(get(get(v, a), b), c))
}

/// The name of the account a session belongs to, from the `current_user`
/// answer (`(unknown)` when it has none).
pub open spec fn spec_account_name(json: JsonValue) -> Seq<char> {
    match str_at3(Some(json), "data"@, "attributes"@, "full_name"@) {
        Some(n) => n,
        None => "(unknown)"@,
    }
}

/// The name of the account, from the `current_user` answer.
pub fn account_name(json: &JsonValue) -> (r: String)
    ensures
        r@ == spec_account_name(*json),
{
    match str_in(get_in(get_in(json.field("data"), "attributes"), "full_name")) {
        Some(n) => n,
        None => string_of(chars_of("(unknown)").as_slice()),
    }
}

/// The id of the first campaign a lookup answer lists.
pub open spec fn spec_campaign_id(json: JsonValue) -> Option<Seq<char>> {
    match as_array(get(Some(json), "data"@)) {
        Some(a) => if a.len() > 0 {
            as_str(get(Some(a[0]), "id"@))
        } else {
            None
        },
        None => None,
    }
}

/// The id of the first campaign a lookup answer lists.
pub fn campaign_id(json: &JsonValue) -> (r: Option<String>)
    ensures
        match spec_campaign_id(*json) {
            Some(i) => r matches Some(s) && s@ == i,
            None => r is None,
        },
{
    match array_in(json.field("data")) {
        Some(a) => {
            if a.len() > 0 {
                str_in(a[0].field("id"))
            } else {
                None
            }
        },
        None => None,
    }
}

/// The cursor of the next page of posts, when there is one.
pub open spec fn spec_next_cursor(json: JsonValue) -> Option<Seq<char>> {
    as_str(get(get(get(get(Some(json), "meta"@), "pagination"@), "cursors"@), "next"@))
}

/// The cursor of the next page of posts.
pub fn next_cursor(json: &JsonValue) -> (r: Option<String>)
    ensures
        match spec_next_cursor(*json) {
            Some(c) => r matches Some(s) && s@ == c,
            None => r is None,
        },
{
    str_in(get_in(get_in(get_in(json.field("meta"), "pagination"), "cursors"), "next"))
}

/// The ids a post's relationship `rel` lists (those that are strings), in
/// order.
pub open spec fn spec_rel_ids(post: JsonValue, rel: Seq<char>) -> Seq<Seq<char>> {
    match as_array(get(get(get(Some(post), "relationships"@), rel), "data"@)) {
        Some(a) => ids_of(a),
        None => Seq::empty(),
    }
}

/// The string `id`s of `items`, in order.
pub open spec fn ids_of(items: Seq<JsonValue>) -> Seq<Seq<char>>
    decreases items.len(),
{
    if items.len() == 0 {
        Seq::empty()
    } else {
        let prev = ids_of(items.drop_last());
        match as_str(get(Some(items.last()), "id"@)) {
            Some(i) => prev.push(i),
            None => prev,
        }
    }
}

/// The ids a post's relationship `rel` lists.
pub fn rel_ids(post: &JsonValue, rel: &str) -> (r: Vec<String>)
    ensures
        string_views(r@) == spec_rel_ids(*post, rel@),
{
    let mut out: Vec<String> = Vec::new();
    match array_in(get_in(get_in(post.field("relationships"), rel), "data")) {
        Some(a) => {
            let mut i: usize = 0;
            while i < a.len()
                invariant
                    i <= a@.len(),
                    string_views(out@) == ids_of(a@.take(i as int)),
                decreases a@.len() - i,
            {
                assert(a@.take(i + 1).drop_last() =~= a@.take(i as int));
                assert(a@.take(i + 1).last() == a@[i as int]);
                match str_in(a[i].field("id")) {
                    Some(s) => {
                        let ghost before = string_views(out@);
                        out.push(s);
                        assert(string_views(out@) =~= before.push(s@));
                    },
                    None => {},
                }
                i = i + 1;
            }
            assert(a@.take(a@.len() as int) =~= a@);
        },
        None => {},
    }
    out
}

/// An included item is of type `t1` or `t2` and has id `id`.
pub open spec fn is_item(v: JsonValue, t1: Seq<char>, t2: Seq<char>, id: Seq<char>) -> bool {
    let t = as_str(get(Some(v), "type"@));
    (t == Some(t1) || t == Some(t2)) && as_str(get(Some(v), "id"@)) == Some(id)
}

/// The first included item of type `t1` or `t2` with id `id`.
pub open spec fn find_item(items: Seq<JsonValue>, t1: Seq<char>, t2: Seq<char>, id: Seq<char>) -> Option<JsonValue>
    decreases items.len(),
{
    if items.len() == 0 {
        None
    } else if is_item(items[0], t1, t2, id) {
        Some(items[0])
    } else {
        find_item(items.drop_first(), t1, t2, id)
    }
}

fn opt_eq(a: &Option<String>, b: &str) -> (r: bool)
    ensures
        r == (match a {
            Some(s) => Some(s@),
            None => None,
        } == Some(b@)),
{
    match a {
        Some(s) => eq_chars(chars_of(s.as_str()).as_slice(), chars_of(b).as_slice()),
        None => false,
    }
}

fn find_item_exec<'a>(items: &'a Vec<JsonValue>, t1: &str, t2: &str, id: &str) -> (r: Option<&'a JsonValue>)
    ensures
        deref_opt(r) == find_item(items@, t1@, t2@, id@),
{
    let mut i: usize = 0;
    assert(items@.skip(0) =~= items@);
    while i < items.len()
        invariant
            i <= items@.len(),
            find_item(items@, t1@, t2@, id@) == find_item(items@.skip(i as int), t1@, t2@, id@),
        decreases items@.len() - i,
    {
        assert(items@.skip(i as int)[0] == items@[i as int]);
        assert(items@.skip(i as int).drop_first() =~= items@.skip(i + 1));
        let v = &items[i];
        let t = str_in(v.field("type"));
        let vid = str_in(v.field("id"));
        if (opt_eq(&t, t1) || opt_eq(&t, t2)) && opt_eq(&vid, id) {
            return Some(v);
        }
        i = i + 1;
    }
    None
}

/// A media item's name (`file`) and address: its download address, else
/// its original, else its default image address, else empty.
pub open spec fn media_file(m: JsonValue) -> (Seq<char>, Seq<char>) {
    let attrs = get(Some(m), "attributes"@);
    let name = match as_str(get(attrs, "file_name"@)) {
        Some(n) => n,
        None => "file"@,
    };
    let url = match as_str(get(attrs, "download_url"@)) {
        Some(u) => u,
        None => match as_str(get(get(attrs, "image_urls"@), "original"@)) {
            Some(u) => u,
            None => match as_str(get(get(attrs, "image_urls"@), "default"@)) {
                Some(u) => u,
                None => Seq::empty(),
            },
        },
    };
    (name, url)
}

/// An attachment's name (`attachment`) and address (empty when missing).
pub open spec fn attachment_file(a: JsonValue) -> (Seq<char>, Seq<char>) {
    let attrs = get(Some(a), "attributes"@);
    (
        match as_str(get(attrs, "name"@)) {
            Some(n) => n,
            None => "attachment"@,
        },
        match as_str(get(attrs, "url"@)) {
            Some(u) => u,
            None => Seq::empty(),
        },
    )
}

/// An audio item's file, when it has a download address: named after the
/// address's last segment without its query.
pub open spec fn audio_file(a: JsonValue) -> Option<(Seq<char>, Seq<char>)> {
    let url = match as_str(get(get(Some(a), "attributes"@), "download_url"@)) {
        Some(u) => u,
        None => Seq::empty(),
    };
    if url.len() == 0 {
        None
    } else {
        Some((before_char(after_last_char(url, '/'), '?'), url))
    }
}

/// The files of the included items with the given ids, in order.
pub open spec fn files_for(ids: Seq<Seq<char>>, included: Seq<JsonValue>, kind: int) -> Seq<(Seq<char>, Seq<char>)>
    decreases ids.len(),
{
    if ids.len() == 0 {
        Seq::empty()
    } else {
        let prev = files_for(ids.drop_last(), included, kind);
        let id = ids.last();
        if kind == 0 {
            match find_item(included, "media"@, "post_image"@, id) {
                Some(m) => prev.push(media_file(m)),
                None => prev,
            }
        } else if kind == 1 {
            match find_item(included, "attachment"@, "attachment"@, id) {
                Some(a) => prev.push(attachment_file(a)),
                None => prev,
            }
        } else {
            match find_item(included, "audio"@, "audio"@, id) {
                Some(a) => match audio_file(a) {
                    Some(f) => prev.push(f),
                    None => prev,
                },
                None => prev,
            }
        }
    }
}

/// The files a post offers, as name and address, in order: its images and
/// media, then its attachments, then its audio.
pub open spec fn spec_post_items(post: JsonValue, included: Seq<JsonValue>) -> Seq<(Seq<char>, Seq<char>)> {
    files_for(spec_rel_ids(post, "images"@) + spec_rel_ids(post, "media"@), included, 0)
        + files_for(spec_rel_ids(post, "attachments"@), included, 1)
        + files_for(spec_rel_ids(post, "audio"@), included, 2)
}

/// Files as texts.
pub open spec fn file_views(v: Seq<(String, String)>) -> Seq<(Seq<char>, Seq<char>)> {
    v.map_values(|f: (String, String)| (f.0@, f.1@))
}

fn media_file_exec(m: &JsonValue) -> (r: (String, String))
    ensures
        (r.0@, r.1@) == media_file(*m),
{
    let attrs = m.field("attributes");
    let name = match str_in(get_in(attrs, "file_name")) {
        Some(n) => n,
        None => string_of(chars_of("file").as_slice()),
    };
    let url = match str_in(get_in(attrs, "download_url")) {
        Some(u) => u,
        None => match str_in(get_in(get_in(attrs, "image_urls"), "original")) {
            Some(u) => u,
            None => match str_in(get_in(get_in(attrs, "image_urls"), "default")) {
                Some(u) => u,
                None => String::new(),
            },
        },
    };
    (name, url)
}

fn attachment_file_exec(a: &JsonValue) -> (r: (String, String))
    ensures
        (r.0@, r.1@) == attachment_file(*a),
{
    let attrs = a.field("attributes");
    let name = match str_in(get_in(attrs, "name")) {
        Some(n) => n,
        None => string_of(chars_of("attachment").as_slice()),
    };
    let url = match str_in(get_in(attrs, "url")) {
        Some(u) => u,
        None => String::new(),
    };
    (name, url)
}

fn audio_file_exec(a: &JsonValue) -> (r: Option<(String, String)>)
    ensures
        match audio_file(*a) {
            Some(f) => r matches Some(p) && (p.0@, p.1@) == f,
            None => r is None,
        },
{
    let url = match str_in(get_in(a.field("attributes"), "download_url")) {
        Some(u) => u,
        None => String::new(),
    };
    if url.as_str().is_empty() {
        return None;
    }
    let u = chars_of(url.as_str());
    let last = after_last_char_vec(u.as_slice(), '/');
    let name = before_char_vec(last.as_slice(), '?');
    Some((string_of(name.as_slice()), url))
}

fn push_files_for(ids: &Vec<String>, included: &Vec<JsonValue>, kind: u8, out: &mut Vec<(String, String)>)
    requires
        kind <= 2,
    ensures
        file_views(final(out)@) == file_views(old(out)@) + files_for(string_views(ids@), included@, kind as int),
{
    let ghost start = file_views(out@);
    let ghost iv = string_views(ids@);
    let mut i: usize = 0;
    while i < ids.len()
        invariant
            i <= ids@.len(),
            kind <= 2,
            iv == string_views(ids@),
            file_views(out@) == start + files_for(iv.take(i as int), included@, kind as int),
        decreases ids@.len() - i,
    {
        assert(iv.take(i + 1).drop_last() =~= iv.take(i as int));
        assert(iv.take(i + 1).last() == ids@[i as int]@);
        let id = ids[i].as_str();
        let ghost before = file_views(out@);
        let found: Option<(String, String)> = if kind == 0 {
            match find_item_exec(included, "media", "post_image", id) {
                Some(m) => Some(media_file_exec(m)),
                None => None,
            }
        } else if kind == 1 {
            match find_item_exec(included, "attachment", "attachment", id) {
                Some(a) => Some(attachment_file_exec(a)),
                None => None,
            }
        } else {
            match find_item_exec(included, "audio", "audio", id) {
                Some(a) => audio_file_exec(a),
                None => None,
            }
        };
        match found {
            Some(f) => {
                let ghost fv = (f.0@, f.1@);
                out.push(f);
                assert(file_views(out@) =~= before.push(fv));
            },
            None => {},
        }
        i = i + 1;
    }
    assert(iv.take(ids@.len() as int) =~= iv);
}

/// The files a post offers, as name and address, in order.
pub fn collect_post_items(post: &JsonValue, included: &Vec<JsonValue>) -> (r: Vec<(String, String)>)
    ensures
        file_views(r@) == spec_post_items(*post, included@),
{
    let mut out: Vec<(String, String)> = Vec::new();
    let mut visual = rel_ids(post, "images");
    let media = rel_ids(post, "media");
    let ghost img_v = string_views(visual@);
    let mut k: usize = 0;
    while k < media.len()
        invariant
            k <= media@.len(),
            string_views(visual@) == img_v + string_views(media@).take(k as int),
        decreases media@.len() - k,
    {
        let ghost before = string_views(visual@);
        let s = media[k].clone();
        visual.push(s);
        assert(string_views(visual@) =~= before.push(s@));
        assert(string_views(media@).take(k + 1) =~= string_views(media@).take(k as int).push(media@[k as int]@));
        k = k + 1;
    }
    assert(string_views(media@).take(media@.len() as int) =~= string_views(media@));
    push_files_for(&visual, included, 0, &mut out);
    let attachments = rel_ids(post, "attachments");
    push_files_for(&attachments, included, 1, &mut out);
    let audio = rel_ids(post, "audio");
    push_files_for(&audio, included, 2, &mut out);
    assert(file_views(out@) =~= spec_post_items(*post, included@));
    out
}

// ----------------------------------------------------------------------------
// Choosing what to download
// ----------------------------------------------------------------------------

/// What a scan has found so far: the files to download (safe name,
/// address), how many are already on disk, and the safe names met.
pub struct ScanState {
    pub to_download: Vec<(String, String)>,
    pub already_have: usize,
    pub seen: Vec<String>,
}

impl ScanState {
    /// Nothing found yet.
    pub fn new() -> (s: ScanState)
        ensures
            s.to_download@.len() == 0,
            s.already_have == 0,
            s.seen@.len() == 0,
    {
        ScanState { to_download: Vec::new(), already_have: 0, seen: Vec::new() }
    }
}

/// Whether `name` is among the names met.
fn seen_contains(seen: &Vec<String>, name: &[char]) -> (b: bool)
    ensures
        b == string_views(seen@).contains(name@),
{
    let mut i: usize = 0;
    while i < seen.len()
        invariant
            i <= seen@.len(),
            forall|j: int| 0 <= j < i ==> string_views(seen@)[j] != name@,
        decreases seen@.len() - i,
    {
        if eq_chars(chars_of(seen[i].as_str()).as_slice(), name) {
            assert(string_views(seen@)[i as int] == name@);
            return true;
        }
        i = i + 1;
    }
    false
}

/// What taking in a file does to a scan (see `push_item`).
pub open spec fn push_item_outcome(before: ScanState, after: ScanState, filename: Seq<char>, url: Seq<char>, exists: bool) -> bool {
    let safe = spec_sanitize_filename(filename);
    if url.len() == 0 || safe.len() == 0 || string_views(before.seen@).contains(safe) {
        after == before
    } else {
        &&& string_views(after.seen@) == string_views(before.seen@).push(safe)
        &&& if exists {
            &&& after.already_have == before.already_have + 1
            &&& after.to_download@ == before.to_download@
        } else {
            &&& after.already_have == before.already_have
            &&& file_views(after.to_download@) == file_views(before.to_download@).push((safe, url))
        }
    }
}

/// Takes in a file a post offers, given whether a file with its safe name
/// is already on disk: one with no address, or whose safe name is empty or
/// was met before, is passed over; else its name is noted, and it is
/// counted as already there or added to the downloads.
pub fn push_item(state: &mut ScanState, filename: &str, url: &str, exists: bool)
    requires
        old(state).already_have < usize::MAX,
    ensures
        push_item_outcome(*old(state), *final(state), filename@, url@, exists),
{
    if url.is_empty() {
        return;
    }
    let safe = sanitize_filename(filename);
    let sv = chars_of(safe.as_str());
    if sv.len() == 0 || seen_contains(&state.seen, sv.as_slice()) {
        return;
    }
    let ghost seen0 = string_views(state.seen@);
    let copy = string_of(sv.as_slice());
    state.seen.push(copy);
    assert(string_views(state.seen@) =~= seen0.push(safe@));
    if exists {
        state.already_have = state.already_have + 1;
    } else {
        let ghost d0 = file_views(state.to_download@);
        let u = string_of(chars_of(url).as_slice());
        state.to_download.push((safe, u));
        assert(file_views(state.to_download@) =~= d0.push((safe@, url@)));
    }
}

// ----------------------------------------------------------------------------
// Subscriptions
// ----------------------------------------------------------------------------

/// An active subscription: creator name, vanity name, amount in cents and
/// currency.
pub type Subscription = (Seq<char>, Seq<char>, int, Seq<char>);

/// The subscription a pledge reference stands for, when its pledge is among
/// the included items, is not declined, and its creator is included too.
pub open spec fn subscription_of(pledge_ref: JsonValue, included: Seq<JsonValue>) -> Option<Subscription> {
    let pledge_id = match as_str(get(Some(pledge_ref), "id"@)) {
        Some(i) => i,
        None => Seq::empty(),
    };
    match find_item(included, "pledge"@, "pledge"@, pledge_id) {
        None => None,
        Some(p) => {
            let attrs = get(Some(p), "attributes"@);
            let status = match as_str(get(attrs, "status"@)) {
                Some(s) => s,
                None => "unknown"@,
            };
            if status == "declined"@ {
                None
            } else {
                let cents = match as_i64(get(attrs, "amount_cents"@)) {
                    Some(c) => c,
                    None => 0,
                };
                let currency = match as_str(get(attrs, "currency"@)) {
                    Some(c) => c,
                    None => "USD"@,
                };
                let creator_id = match as_str(get(get(get(get(Some(p), "relationships"@), "creator"@), "data"@), "id"@)) {
                    Some(c) => c,
                    None => Seq::empty(),
                };
                match find_item(included, "user"@, "user"@, creator_id) {
                    None => None,
                    Some(c) => {
                        let cattrs = get(Some(c), "attributes"@);
                        Some((
                            match as_str(get(cattrs, "full_name"@)) {
                                Some(n) => n,
                                None => seq!['?'],
                            },
                            match as_str(get(cattrs, "vanity"@)) {
                                Some(v) => v,
                                None => seq!['?'],
                            },
                            cents,
                            currency,
                        ))
                    },
                }
            }
        },
    }
}

/// The subscriptions the pledge references stand for, in order.
pub open spec fn subscriptions_of(refs: Seq<JsonValue>, included: Seq<JsonValue>) -> Seq<Subscription>
    decreases refs.len(),
{
    if refs.len() == 0 {
        Seq::empty()
    } else {
        let prev = subscriptions_of(refs.drop_last(), included);
        match subscription_of(refs.last(), included) {
            Some(s) => prev.push(s),
            None => prev,
        }
    }
}

/// The subscriptions of a `current_user` answer; `None` when it lists no
/// pledges.
pub open spec fn spec_subscriptions(json: JsonValue) -> Option<Seq<Subscription>> {
    let refs = as_array(get(get(get(get(Some(json), "data"@), "relationships"@), "pledges"@), "data"@));
    let included = match as_array(get(Some(json), "included"@)) {
        Some(a) => a,
        None => Seq::empty(),
    };
    match refs {
        Some(r) => if r.len() > 0 {
            Some(subscriptions_of(r, included))
        } else {
            None
        },
        None => None,
    }
}

/// Subscriptions as plain values.
pub open spec fn sub_views(v: Seq<(String, String, i64, String)>) -> Seq<Subscription> {
    v.map_values(|s: (String, String, i64, String)| (s.0@, s.1@, s.2 as int, s.3@))
}

fn subscription_exec(pledge_ref: &JsonValue, included: &Vec<JsonValue>) -> (r: Option<(String, String, i64, String)>)
    ensures
        match subscription_of(*pledge_ref, included@) {
            Some(s) => r matches Some(x) && (x.0@, x.1@, x.2 as int, x.3@) == s,
            None => r is None,
        },
{
    let pledge_id = match str_in(pledge_ref.field("id")) {
        Some(i) => i,
        None => String::new(),
    };
    let p = match find_item_exec(included, "pledge", "pledge", pledge_id.as_str()) {
        Some(p) => p,
        None => {
            return None;
        },
    };
    let attrs = p.field("attributes");
    let status = match str_in(get_in(attrs, "status")) {
        Some(s) => s,
        None => string_of(chars_of("unknown").as_slice()),
    };
    if eq_chars(chars_of(status.as_str()).as_slice(), chars_of("declined").as_slice()) {
        return None;
    }
    let cents: i64 = match i64_in(get_in(attrs, "amount_cents")) {
        Some(c) => c,
        None => 0,
    };
    let currency = match str_in(get_in(attrs, "currency")) {
        Some(c) => c,
        None => string_of(chars_of("USD").as_slice()),
    };
    let creator_id = match str_in(get_in(get_in(get_in(p.field("relationships"), "creator"), "data"), "id")) {
        Some(c) => c,
        None => String::new(),
    };
    let c = match find_item_exec(included, "user", "user", creator_id.as_str()) {
        Some(c) => c,
        None => {
            return None;
        },
    };
    let cattrs = c.field("attributes");
    let name = match str_in(get_in(cattrs, "full_name")) {
        Some(n) => n,
        None => string_of(crate::text::one_char('?').as_slice()),
    };
    let vanity = match str_in(get_in(cattrs, "vanity")) {
        Some(v) => v,
        None => string_of(crate::text::one_char('?').as_slice()),
    };
    Some((name, vanity, cents, currency))
}

/// The active subscriptions of a `current_user` answer (creator, vanity,
/// cents, currency), in order; `None` when it lists no pledges.
pub fn subscriptions(json: &JsonValue) -> (r: Option<Vec<(String, String, i64, String)>>)
    ensures
        match spec_subscriptions(*json) {
            Some(s) => r matches Some(v) && sub_views(v@) == s,
            None => r is None,
        },
{
    let refs = match array_in(get_in(get_in(get_in(json.field("data"), "relationships"), "pledges"), "data")) {
        Some(r) => r,
        None => {
            return None;
        },
    };
    if refs.len() == 0 {
        return None;
    }
    let empty: Vec<JsonValue> = Vec::new();
    let included = match array_in(json.field("included")) {
        Some(a) => a,
        None => &empty,
    };
    let mut out: Vec<(String, String, i64, String)> = Vec::new();
    let mut i: usize = 0;
    while i < refs.len()
        invariant
            i <= refs@.len(),
            sub_views(out@) == subscriptions_of(refs@.take(i as int), included@),
        decreases refs@.len() - i,
    {
        assert(refs@.take(i + 1).drop_last() =~= refs@.take(i as int));
        assert(refs@.take(i + 1).last() == refs@[i as int]);
        match subscription_exec(&refs[i], included) {
            Some(x) => {
                let ghost before = sub_views(out@);
                let ghost xv = (x.0@, x.1@, x.2 as int, x.3@);
                out.push(x);
                assert(sub_views(out@) =~= before.push(xv));
            },
            None => {},
        }
        i = i + 1;
    }
    assert(refs@.take(refs@.len() as int) =~= refs@);
    Some(out)
}

} // verus!
