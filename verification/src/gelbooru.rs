//! gelbooru.com: credentials, the API's query parameters, and reading its
//! JSON answers (posts to download, tags found).
use vstd::prelude::*;
use crate::text::{
    after_last_char, after_last_char_vec, chars_of, decimal, decimal_vec, opt_u64, parse_bounded,
    parse_u64, push_all, push_str, string_of,
};
use crate::json::{
    as_array, as_i64, as_str, deref_opt, get, get_in, i64_in, json_text, str_in, to_json_text,
    JsonValue,
};
use crate::config::Config;
use crate::http::{ext_or_jpg, non_empty, opt_string_view, spec_ext_or_jpg};
use crate::order::{is_stable_order, stable_order};

verus! {

/// The API's address.
pub const API_BASE: &'static str = "https://gelbooru.com/index.php";

/// How many posts one page of results holds.
pub const PAGE_LIMIT: u32 = 100;

/// A gelbooru account's API credentials.
#[derive(Debug)]
pub struct Credentials {
    pub user_id: String,
    pub api_key: String,
}

/// A value that is present and not empty, else `None`.
pub open spec fn filled(o: Option<Seq<char>>) -> Option<Seq<char>> {
    if non_empty(o) {
        o
    } else {
        None
    }
}

fn filled_exec(o: Option<&str>) -> (r: Option<String>)
    ensures
        opt_string_view(r) == filled(match o {
            Some(s) => Some(s@),
            None => None,
        }),
{
    match o {
        Some(s) => {
            if s.is_empty() {
                None
            } else {
                Some(string_of(chars_of(s).as_slice()))
            }
        },
        None => None,
    }
}

/// The credentials to use: each of user id and key from its environment
/// variable when set and not empty, else from the settings when not empty;
/// none unless both are found.
pub open spec fn spec_credentials(env_user: Option<Seq<char>>, env_key: Option<Seq<char>>, config: Config) -> Option<(Seq<char>, Seq<char>)> {
    let user = match filled(env_user) {
        Some(u) => Some(u),
        None => filled(opt_string_view(config.user_id)),
    };
    let key = match filled(env_key) {
        Some(k) => Some(k),
        None => filled(opt_string_view(config.api_key)),
    };
    match (user, key) {
        (Some(u), Some(k)) => Some((u, k)),
        _ => None,
    }
}

/// The credentials to use, from the values of `GELBOORU_USER_ID` and
/// `GELBOORU_API_KEY` (when set) and the saved settings.
pub fn get_credentials(env_user: Option<&str>, env_key: Option<&str>, config: &Config) -> (r: Option<Credentials>)
    ensures
        match spec_credentials(
            match env_user {
                Some(s) => Some(s@),
                None => None,
            },
            match env_key {
                Some(s) => Some(s@),
                None => None,
            },
            *config,
        ) {
            Some((u, k)) => r matches Some(c) && c.user_id@ == u && c.api_key@ == k,
            None => r is None,
        },
{
    let user = match filled_exec(env_user) {
        Some(u) => Some(u),
        None => match &config.user_id {
            Some(u) => filled_exec(Some(u.as_str())),
            None => None,
        },
    };
    let key = match filled_exec(env_key) {
        Some(k) => Some(k),
        None => match &config.api_key {
            Some(k) => filled_exec(Some(k.as_str())),
            None => None,
        },
    };
    match (user, key) {
        (Some(user_id), Some(api_key)) => Some(Credentials { user_id, api_key }),
        _ => None,
    }
}

// ----------------------------------------------------------------------------
// Query parameters
// ----------------------------------------------------------------------------

/// Query parameters as texts.
pub open spec fn param_views(q: Seq<(String, String)>) -> Seq<(Seq<char>, Seq<char>)> {
    q.map_values(|p: (String, String)| (p.0@, p.1@))
}

/// The credentials' parameters, when there are credentials.
pub open spec fn auth_params(creds: Option<(Seq<char>, Seq<char>)>) -> Seq<(Seq<char>, Seq<char>)> {
    match creds {
        Some((u, k)) => seq![("user_id"@, u), ("api_key"@, k)],
        None => Seq::empty(),
    }
}

/// Credentials as texts.
pub open spec fn creds_view(c: Option<&Credentials>) -> Option<(Seq<char>, Seq<char>)> {
    match c {
        Some(c) => Some((c.user_id@, c.api_key@)),
        None => None,
    }
}

fn pair(a: &str, b: &str) -> (p: (String, String))
    ensures
        p.0@ == a@,
        p.1@ == b@,
{
    (string_of(chars_of(a).as_slice()), string_of(chars_of(b).as_slice()))
}

fn push_auth(q: &mut Vec<(String, String)>, creds: Option<&Credentials>)
    ensures
        param_views(final(q)@) == param_views(old(q)@) + auth_params(creds_view(creds)),
{
    let ghost before = param_views(q@);
    match creds {
        Some(c) => {
            let a = pair("user_id", c.user_id.as_str());
            let b = pair("api_key", c.api_key.as_str());
            q.push(a);
            q.push(b);
            assert(param_views(q@) =~= before + auth_params(creds_view(creds)));
        },
        None => {
            assert(param_views(q@) =~= before + auth_params(creds_view(creds)));
        },
    }
}

/// The parameters asking for page `pid` of the posts tagged `tags`.
pub open spec fn spec_post_query(tags: Seq<char>, pid: u32, creds: Option<(Seq<char>, Seq<char>)>) -> Seq<(Seq<char>, Seq<char>)> {
    seq![
        ("page"@, "dapi"@),
        ("s"@, "post"@),
        ("q"@, "index"@),
        ("json"@, "1"@),
        ("tags"@, tags),
        ("limit"@, decimal(PAGE_LIMIT as nat)),
        ("pid"@, decimal(pid as nat)),
    ] + auth_params(creds)
}

/// The parameters asking for page `pid` of the posts tagged `tags`.
pub fn post_query(tags: &str, pid: u32, creds: Option<&Credentials>) -> (q: Vec<(String, String)>)
    ensures
        param_views(q@) == spec_post_query(tags@, pid, creds_view(creds)),
{
    let mut q: Vec<(String, String)> = Vec::new();
    q.push(pair("page", "dapi"));
    q.push(pair("s", "post"));
    q.push(pair("q", "index"));
    q.push(pair("json", "1"));
    q.push(pair("tags", tags));
    let limit = string_of(decimal_vec(PAGE_LIMIT as u64).as_slice());
    q.push(pair("limit", limit.as_str()));
    let p = string_of(decimal_vec(pid as u64).as_slice());
    q.push(pair("pid", p.as_str()));
    let ghost base = param_views(q@);
    push_auth(&mut q, creds);
    assert(base =~= seq![
        ("page"@, "dapi"@),
        ("s"@, "post"@),
        ("q"@, "index"@),
        ("json"@, "1"@),
        ("tags"@, tags@),
        ("limit"@, decimal(PAGE_LIMIT as nat)),
        ("pid"@, decimal(pid as nat)),
    ]);
    q
}

/// The pattern tags are searched with: the keyword between `%` signs.
pub open spec fn spec_tag_pattern(keyword: Seq<char>) -> Seq<char> {
    seq!['%'] + keyword + seq!['%']
}

/// The parameters asking for at most `limit` tags whose names match the
/// keyword, most used first.
pub open spec fn spec_tag_query(keyword: Seq<char>, limit: u32, creds: Option<(Seq<char>, Seq<char>)>) -> Seq<(Seq<char>, Seq<char>)> {
    seq![
        ("page"@, "dapi"@),
        ("s"@, "tag"@),
        ("q"@, "index"@),
        ("json"@, "1"@),
        ("name_pattern"@, spec_tag_pattern(keyword)),
        ("limit"@, decimal(limit as nat)),
        ("orderby"@, "count"@),
    ] + auth_params(creds)
}

/// The parameters of a tag search for `keyword` (100 tags for a search, 20
/// for completion).
pub fn tag_query(keyword: &str, limit: u32, creds: Option<&Credentials>) -> (q: Vec<(String, String)>)
    ensures
        param_views(q@) == spec_tag_query(keyword@, limit, creds_view(creds)),
{
    let mut pat: Vec<char> = Vec::new();
    pat.push('%');
    push_str(&mut pat, keyword);
    pat.push('%');
    let pattern = string_of(pat.as_slice());
    let mut q: Vec<(String, String)> = Vec::new();
    q.push(pair("page", "dapi"));
    q.push(pair("s", "tag"));
    q.push(pair("q", "index"));
    q.push(pair("json", "1"));
    q.push(pair("name_pattern", pattern.as_str()));
    let l = string_of(decimal_vec(limit as u64).as_slice());
    q.push(pair("limit", l.as_str()));
    q.push(pair("orderby", "count"));
    let ghost base = param_views(q@);
    assert(pattern@ =~= spec_tag_pattern(keyword@));
    push_auth(&mut q, creds);
    assert(base =~= seq![
        ("page"@, "dapi"@),
        ("s"@, "tag"@),
        ("q"@, "index"@),
        ("json"@, "1"@),
        ("name_pattern"@, spec_tag_pattern(keyword@)),
        ("limit"@, decimal(limit as nat)),
        ("orderby"@, "count"@),
    ]);
    q
}

// ----------------------------------------------------------------------------
// Answers
// ----------------------------------------------------------------------------

/// The entries of an answer: the answer itself when it is an array; when it
/// is an object, its member `key` when that is an array, or that member
/// alone when it is an object; else nothing.
pub open spec fn spec_extract_array(json: JsonValue, key: Seq<char>) -> Seq<JsonValue> {
    match json {
        JsonValue::Array(a) => a@,
        JsonValue::Object(_) => match get(Some(json), key) {
            Some(JsonValue::Array(a)) => a@,
            Some(JsonValue::Object(o)) => seq![JsonValue::Object(o)],
            _ => Seq::empty(),
        },
        _ => Seq::empty(),
    }
}

/// The values a list of references points to.
pub open spec fn derefs(v: Seq<&JsonValue>) -> Seq<JsonValue> {
    v.map_values(|x: &JsonValue| *x)
}

/// The entries (posts or tags) of an answer.
pub fn extract_array<'a>(json: &'a JsonValue, key: &str) -> (r: Vec<&'a JsonValue>)
    ensures
        derefs(r@) == spec_extract_array(*json, key@),
{
    match json {
        JsonValue::Array(a) => refs_of(a),
        JsonValue::Object(_) => match json.field(key) {
            Some(v) => match v {
                JsonValue::Array(a) => refs_of(a),
                JsonValue::Object(_) => {
                    let mut r: Vec<&'a JsonValue> = Vec::new();
                    r.push(v);
                    assert(derefs(r@) =~= seq![*v]);
                    r
                },
                _ => Vec::new(),
            },
            None => Vec::new(),
        },
        _ => Vec::new(),
    }
}

fn refs_of<'a>(a: &'a Vec<JsonValue>) -> (r: Vec<&'a JsonValue>)
    ensures
        derefs(r@) == a@,
{
    let mut r: Vec<&'a JsonValue> = Vec::new();
    let mut i: usize = 0;
    while i < a.len()
        invariant
            i <= a@.len(),
            derefs(r@) == a@.take(i as int),
        decreases a@.len() - i,
    {
        let ghost before = derefs(r@);
        r.push(&a[i]);
        assert(derefs(r@) =~= before.push(a@[i as int]));
        assert(a@.take(i + 1) =~= a@.take(i as int).push(a@[i as int]));
        i = i + 1;
    }
    assert(a@.take(a@.len() as int) =~= a@);
    r
}

/// The file a post offers: its name (the post's id as printed in JSON, or
/// `unknown`, a dot, and the extension of its address) and its address;
/// none when the post has no non-empty `file_url`.
pub open spec fn spec_post_file(post: JsonValue) -> Option<(Seq<char>, Seq<char>)> {
    let url = match as_str(get(Some(post), "file_url"@)) {
        Some(u) => u,
        None => Seq::empty(),
    };
    if url.len() == 0 {
        None
    } else {
        let id = match get(Some(post), "id"@) {
            Some(v) => json_text(v),
            None => "unknown"@,
        };
        Some((id + seq!['.'] + spec_ext_or_jpg(url), url))
    }
}

/// The file a post offers, as its name and address.
pub fn post_file(post: &JsonValue) -> (r: Option<(String, String)>)
    ensures
        match spec_post_file(*post) {
            Some((name, url)) => r matches Some(p) && p.0@ == name && p.1@ == url,
            None => r is None,
        },
{
    let url = match str_in(post.field("file_url")) {
        Some(u) => u,
        None => String::new(),
    };
    if url.as_str().is_empty() {
        return None;
    }
    let id = match post.field("id") {
        Some(v) => to_json_text(v),
        None => string_of(chars_of("unknown").as_slice()),
    };
    let ext = ext_or_jpg(url.as_str());
    let mut name = chars_of(id.as_str());
    name.push('.');
    push_str(&mut name, ext.as_str());
    Some((string_of(name.as_slice()), url))
}

/// The files the posts offer, in order.
pub open spec fn post_files(posts: Seq<JsonValue>) -> Seq<(Seq<char>, Seq<char>)>
    decreases posts.len(),
{
    if posts.len() == 0 {
        Seq::empty()
    } else {
        let prev = post_files(posts.drop_last());
        match spec_post_file(posts.last()) {
            Some(f) => prev.push(f),
            None => prev,
        }
    }
}

/// What one page of posts gives: the files to download, and whether to ask
/// for the next page (the page had no posts, or fewer than a full page, at
/// the end).
pub open spec fn spec_post_page(json: JsonValue) -> (Seq<(Seq<char>, Seq<char>)>, bool) {
    let posts = spec_extract_array(json, "post"@);
    (post_files(posts), posts.len() >= PAGE_LIMIT)
}

/// The files of one page of posts, and whether there may be more pages.
pub fn post_page(json: &JsonValue) -> (r: (Vec<(String, String)>, bool))
    ensures
        param_views(r.0@) == spec_post_page(*json).0,
        r.1 == spec_post_page(*json).1,
{
    let posts = extract_array(json, "post");
    let ghost ps = derefs(posts@);
    let mut files: Vec<(String, String)> = Vec::new();
    let mut i: usize = 0;
    while i < posts.len()
        invariant
            i <= posts@.len(),
            ps == derefs(posts@),
            param_views(files@) == post_files(ps.take(i as int)),
        decreases posts@.len() - i,
    {
        assert(ps.take(i + 1).drop_last() =~= ps.take(i as int));
        assert(ps.take(i + 1).last() == *posts@[i as int]);
        match post_file(posts[i]) {
            Some(f) => {
                let ghost before = param_views(files@);
                let ghost fv = (f.0@, f.1@);
                files.push(f);
                assert(param_views(files@) =~= before.push(fv));
            },
            None => {},
        }
        i = i + 1;
    }
    assert(ps.take(posts@.len() as int) =~= ps);
    let more = posts.len() >= PAGE_LIMIT as usize;
    (files, more)
}

/// A tag's name (`?` when missing) and number of posts (0 when missing).
pub open spec fn spec_tag_row(tag: JsonValue) -> (Seq<char>, int) {
    (
        match as_str(get(Some(tag), "name"@)) {
            Some(n) => n,
            None => seq!['?'],
        },
        match as_i64(get(Some(tag), "count"@)) {
            Some(c) => c,
            None => 0,
        },
    )
}

/// The tags of an answer as shown: name and number of posts, most used
/// first (tags with equal counts keep their order).
pub open spec fn spec_tag_rows(json: JsonValue, order: Seq<usize>) -> bool {
    let tags = spec_extract_array(json, "tag"@);
    &&& is_stable_order(tags.map_values(|t: JsonValue| -spec_tag_row(t).1 as i128), order)
}

/// A tag row as texts.
pub open spec fn row_views(rows: Seq<(String, i64)>) -> Seq<(Seq<char>, int)> {
    rows.map_values(|r: (String, i64)| (r.0@, r.1 as int))
}

/// The tags of an answer as rows of name and number of posts, most used
/// first; tags with equal counts keep their order.
pub fn tag_rows(json: &JsonValue) -> (r: Vec<(String, i64)>)
    ensures
        exists|order: Seq<usize>| {
            &&& #[trigger] spec_tag_rows(*json, order)
            &&& row_views(r@) == order.map_values(|k: usize| spec_tag_row(spec_extract_array(*json, "tag"@)[k as int]))
        },
{
    let tags = extract_array(json, "tag");
    let ghost ts = derefs(tags@);
    let mut rows: Vec<(String, i64)> = Vec::new();
    let mut keys: Vec<i128> = Vec::new();
    let mut i: usize = 0;
    while i < tags.len()
        invariant
            i <= tags@.len(),
            ts == derefs(tags@),
            rows@.len() == i,
            keys@.len() == i,
            forall|j: int| 0 <= j < i ==> (#[trigger] row_views(rows@)[j]) == spec_tag_row(ts[j]),
            forall|j: int| 0 <= j < i ==> #[trigger] keys@[j] == -spec_tag_row(ts[j]).1 as i128,
        decreases tags@.len() - i,
    {
        let t = tags[i];
        let name = match str_in(t.field("name")) {
            Some(n) => n,
            None => string_of(crate::text::one_char('?').as_slice()),
        };
        let count: i64 = match i64_in(t.field("count")) {
            Some(c) => c,
            None => 0,
        };
        let k: i128 = 0i128 - (count as i128);
        let ghost before_rows = row_views(rows@);
        let ghost before_keys = keys@;
        let ghost rv = (name@, count as int);
        rows.push((name, count));
        keys.push(k);
        assert(row_views(rows@) =~= before_rows.push(rv));
        assert(keys@ =~= before_keys.push(k));
        assert(row_views(rows@)[i as int] == spec_tag_row(ts[i as int]));
        i = i + 1;
    }
    let order = stable_order(keys.as_slice());
    let ghost kv = ts.map_values(|t: JsonValue| -spec_tag_row(t).1 as i128);
    assert(keys@ =~= kv);
    let mut out: Vec<(String, i64)> = Vec::new();
    let mut k: usize = 0;
    while k < order.len()
        invariant
            k <= order@.len(),
            order@.len() == rows@.len(),
            rows@.len() == ts.len(),
            forall|j: int| 0 <= j < order@.len() ==> (#[trigger] order@[j]) < rows@.len(),
            forall|j: int| 0 <= j < rows@.len() ==> (#[trigger] row_views(rows@)[j]) == spec_tag_row(ts[j]),
            row_views(out@) == order@.take(k as int).map_values(|x: usize| spec_tag_row(ts[x as int])),
        decreases order@.len() - k,
    {
        let idx = order[k];
        let row = (rows[idx].0.clone(), rows[idx].1);
        let ghost before = row_views(out@);
        out.push(row);
        assert(row_views(rows@)[idx as int] == spec_tag_row(ts[idx as int]));
        assert(row_views(out@) =~= before.push(spec_tag_row(ts[idx as int])));
        assert(order@.take(k + 1).map_values(|x: usize| spec_tag_row(ts[x as int])) =~= order@.take(
            k as int,
        ).map_values(|x: usize| spec_tag_row(ts[x as int])).push(spec_tag_row(ts[idx as int])));
        k = k + 1;
    }
    assert(order@.take(order@.len() as int) =~= order@);
    assert(spec_tag_rows(*json, order@));
    out
}

/// The names of an answer's tags that have one, in order (for shell
/// completion).
pub open spec fn tag_names(tags: Seq<JsonValue>) -> Seq<Seq<char>>
    decreases tags.len(),
{
    if tags.len() == 0 {
        Seq::empty()
    } else {
        let prev = tag_names(tags.drop_last());
        match as_str(get(Some(tags.last()), "name"@)) {
            Some(n) => prev.push(n),
            None => prev,
        }
    }
}

/// The names of an answer's tags, for shell completion.
pub fn completion_names(json: &JsonValue) -> (r: Vec<String>)
    ensures
        crate::text::string_views(r@) == tag_names(spec_extract_array(*json, "tag"@)),
{
    let tags = extract_array(json, "tag");
    let ghost ts = derefs(tags@);
    let mut out: Vec<String> = Vec::new();
    let mut i: usize = 0;
    while i < tags.len()
        invariant
            i <= tags@.len(),
            ts == derefs(tags@),
            crate::text::string_views(out@) == tag_names(ts.take(i as int)),
        decreases tags@.len() - i,
    {
        assert(ts.take(i + 1).drop_last() =~= ts.take(i as int));
        assert(ts.take(i + 1).last() == *tags@[i as int]);
        match str_in(tags[i].field("name")) {
            Some(n) => {
                let ghost before = crate::text::string_views(out@);
                out.push(n);
                assert(crate::text::string_views(out@) =~= before.push(n@));
            },
            None => {},
        }
        i = i + 1;
    }
    assert(ts.take(tags@.len() as int) =~= ts);
    out
}

// ----------------------------------------------------------------------------
// Sizes
// ----------------------------------------------------------------------------

/// The total size a `Content-Range` value names: the number after its last
/// `/` (the whole value when it has none).
pub open spec fn spec_content_range_total(value: Seq<char>) -> Option<nat> {
    parse_bounded(after_last_char(value, '/'), u64::MAX as nat)
}

/// The total size a `Content-Range` value names.
pub fn parse_content_range_total(value: &str) -> (r: Option<u64>)
    ensures
        opt_u64(r) == spec_content_range_total(value@),
{
    let v = chars_of(value);
    let tail = after_last_char_vec(v.as_slice(), '/');
    crate::text::parse_decimal(tail.as_slice(), u64::MAX)
}

/// A file's size from the answer to a one-byte range request: with status
/// 206, the total of a readable `Content-Range` when it names one; else,
/// with a success status, the `Content-Length` when given; else unknown.
pub open spec fn spec_head_size(status: u16, content_range: Option<Seq<char>>, content_length: Option<u64>) -> Option<nat> {
    let from_range = if status == 206 {
        match content_range {
            Some(cr) => spec_content_range_total(cr),
            None => None,
        }
    } else {
        None
    };
    match from_range {
        Some(t) => Some(t),
        None => if 200 <= status < 300 {
            opt_u64(content_length)
        } else {
            None
        },
    }
}

/// A file's size from the answer to a one-byte range request.
pub fn head_size(status: u16, content_range: Option<&str>, content_length: Option<u64>) -> (r: Option<u64>)
    ensures
        opt_u64(r) == spec_head_size(
            status,
            match content_range {
                Some(c) => Some(c@),
                None => None,
            },
            content_length,
        ),
{
    if status == 206 {
        match content_range {
            Some(cr) => match parse_content_range_total(cr) {
                Some(t) => {
                    return Some(t);
                },
                None => {},
            },
            None => {},
        }
    }
    if 200 <= status && status < 300 {
        content_length
    } else {
        None
    }
}

/// Paging through posts: every page is asked for with the same `limit`,
/// and a page asks for the next one exactly when it came full, with as many
/// posts as that limit; a page with fewer posts is the last one.
pub proof fn law_full_page_asks_for_next(
    json: JsonValue,
    tags: Seq<char>,
    pid: u32,
    creds: Option<(Seq<char>, Seq<char>)>,
)
    ensures
        spec_post_query(tags, pid, creds)[5] == ("limit"@, decimal(PAGE_LIMIT as nat)),
        spec_extract_array(json, "post"@).len() == PAGE_LIMIT ==> spec_post_page(json).1,
        spec_extract_array(json, "post"@).len() < PAGE_LIMIT ==> !spec_post_page(json).1,
{
}

} // verus!
