//! mangadex.org: the API's addresses, choosing a title's name, and reading
//! the chapter lists and page lists the API gives.
use vstd::prelude::*;
use vstd::utf8::encode_utf8;
use crate::text::{
    after_last_char, after_last_char_vec, chars_of, padded_decimal_vec, push_all, push_str,
    string_of, string_views, zero_pad, decimal,
};
use crate::json::{
    as_array, as_object, as_str, deref_opt, get, get_in, object_in, array_in, str_in,
    JsonValue,
};

verus! {

/// The API's address.
pub const API: &'static str = "https://api.mangadex.org";

// ----------------------------------------------------------------------------
// Text helpers
// ----------------------------------------------------------------------------

/// A byte left as it is in a URL: an ASCII letter or digit, `-`, `_`, `.`
/// or `~`.
pub open spec fn unreserved(b: u8) -> bool {
    (65 <= b <= 90) || (97 <= b <= 122) || (48 <= b <= 57) || b == 45 || b == 95 || b == 46 || b == 126
}

/// The uppercase hexadecimal digit for `d` (below 16).
pub open spec fn hex_upper(d: int) -> char {
    if d < 10 {
        (48 + d) as char
    } else {
        (55 + d) as char
    }
}

/// How a byte is written in a URL: as its character when unreserved, else
/// `%` and two uppercase hexadecimal digits.
pub open spec fn encode_byte(b: u8) -> Seq<char> {
    if unreserved(b) {
        seq![b as char]
    } else {
        seq!['%', hex_upper((b / 16) as int), hex_upper((b % 16) as int)]
    }
}

/// The bytes of `bs`, each written for a URL.
pub open spec fn encode_bytes(bs: Seq<u8>) -> Seq<char>
    decreases bs.len(),
{
    if bs.len() == 0 {
        Seq::empty()
    } else {
        encode_bytes(bs.drop_last()) + encode_byte(bs.last())
    }
}

fn hex_upper_char(d: u8) -> (c: char)
    requires
        d < 16,
    ensures
        c == hex_upper(d as int),
{
    let b: u8 = if d < 10 {
        48 + d
    } else {
        55 + d
    };
    b as char
}

/// `s` encoded for a URL, byte by byte of its UTF-8.
pub fn percent_encode(s: &str) -> (r: String)
    ensures
        r@ == encode_bytes(encode_utf8(s@)),
{
    let bytes = s.as_bytes();
    let mut out: Vec<char> = Vec::new();
    let mut i: usize = 0;
    while i < bytes.len()
        invariant
            i <= bytes@.len(),
            bytes@ == encode_utf8(s@),
            out@ == encode_bytes(bytes@.take(i as int)),
        decreases bytes@.len() - i,
    {
        let b = bytes[i];
        assert(bytes@.take(i + 1).drop_last() =~= bytes@.take(i as int));
        assert(bytes@.take(i + 1).last() == b);
        let ghost before = out@;
        if (65 <= b && b <= 90) || (97 <= b && b <= 122) || (48 <= b && b <= 57) || b == 45 || b == 95
            || b == 46 || b == 126 {
            out.push(b as char);
        } else {
            out.push('%');
            out.push(hex_upper_char(b / 16));
            out.push(hex_upper_char(b % 16));
        }
        assert(out@ =~= before + encode_byte(b));
        i = i + 1;
    }
    assert(bytes@.take(bytes@.len() as int) =~= bytes@);
    string_of(out.as_slice())
}

/// `s` cut to its first `max` characters, with `…` added when it was longer.
pub open spec fn spec_truncate(s: Seq<char>, max: nat) -> Seq<char> {
    if s.len() > max {
        s.take(max as int) + seq!['…']
    } else {
        s
    }
}

/// `s` cut to at most `max` characters, marked with `…` when cut.
pub fn truncate(s: &str, max: usize) -> (r: String)
    ensures
        r@ == spec_truncate(s@, max as nat),
{
    let v = chars_of(s);
    if v.len() > max {
        let mut out = crate::text::sub_vec(v.as_slice(), 0, max);
        out.push('…');
        string_of(out.as_slice())
    } else {
        string_of(v.as_slice())
    }
}

// ----------------------------------------------------------------------------
// Addresses
// ----------------------------------------------------------------------------

/// The search address for `query`: at most 20 titles of any content rating,
/// with their authors.
pub open spec fn spec_search_url(query: Seq<char>) -> Seq<char> {
    API@ + "/manga?title="@ + encode_bytes(encode_utf8(query))
        + "&contentRating[]=safe&contentRating[]=suggestive&contentRating[]=erotica&contentRating[]=pornographic&limit=20&includes[]=author"@
}

/// The search address for `query`.
pub fn search_url(query: &str) -> (r: String)
    ensures
        r@ == spec_search_url(query@),
{
    let mut v = chars_of(API);
    push_str(&mut v, "/manga?title=");
    let q = percent_encode(query);
    push_str(&mut v, q.as_str());
    push_str(
        &mut v,
        "&contentRating[]=safe&contentRating[]=suggestive&contentRating[]=erotica&contentRating[]=pornographic&limit=20&includes[]=author",
    );
    string_of(v.as_slice())
}

/// The address of a title's record.
pub open spec fn spec_manga_info_url(id: Seq<char>) -> Seq<char> {
    API@ + "/manga/"@ + id
}

/// The address of a title's record.
pub fn manga_info_url(id: &str) -> (r: String)
    ensures
        r@ == spec_manga_info_url(id@),
{
    let mut v = chars_of(API);
    push_str(&mut v, "/manga/");
    push_str(&mut v, id);
    string_of(v.as_slice())
}

/// The address of a title's Russian chapters, by volume.
pub open spec fn spec_aggregate_url(id: Seq<char>) -> Seq<char> {
    API@ + "/manga/"@ + id + "/aggregate?translatedLanguage[]=ru"@
}

/// The address of a title's Russian chapters, by volume.
pub fn aggregate_url(id: &str) -> (r: String)
    ensures
        r@ == spec_aggregate_url(id@),
{
    let mut v = chars_of(API);
    push_str(&mut v, "/manga/");
    push_str(&mut v, id);
    push_str(&mut v, "/aggregate?translatedLanguage[]=ru");
    string_of(v.as_slice())
}

/// The address that names the server of a chapter's pages.
pub open spec fn spec_server_url(chapter_id: Seq<char>) -> Seq<char> {
    API@ + "/at-home/server/"@ + chapter_id
}

/// The address that names the server of a chapter's pages.
pub fn server_url(chapter_id: &str) -> (r: String)
    ensures
        r@ == spec_server_url(chapter_id@),
{
    let mut v = chars_of(API);
    push_str(&mut v, "/at-home/server/");
    push_str(&mut v, chapter_id);
    string_of(v.as_slice())
}

// ----------------------------------------------------------------------------
// Titles
// ----------------------------------------------------------------------------

/// The first of the alternative titles that has a `lang` title.
pub open spec fn alt_in(alts: Seq<JsonValue>, lang: Seq<char>) -> Option<Seq<char>>
    decreases alts.len(),
{
    if alts.len() == 0 {
        None
    } else {
        match as_str(get(Some(alts[0]), lang)) {
            Some(t) => Some(t),
            None => alt_in(alts.drop_first(), lang),
        }
    }
}

/// The name to show for a title with attributes `attrs`: its Russian,
/// English or romanized title; else the first Russian, then the first
/// English alternative title; else its first title in any language; else
/// `?`.
pub open spec fn spec_best_title(attrs: Option<JsonValue>) -> Seq<char> {
    let titles = get(attrs, "title"@);
    let alts = as_array(get(attrs, "altTitles"@));
    if as_str(get(titles, "ru"@)) is Some {
        as_str(get(titles, "ru"@))->0
    } else if as_str(get(titles, "en"@)) is Some {
        as_str(get(titles, "en"@))->0
    } else if as_str(get(titles, "ja-ro"@)) is Some {
        as_str(get(titles, "ja-ro"@))->0
    } else if alts is Some && alt_in(alts->0, "ru"@) is Some {
        alt_in(alts->0, "ru"@)->0
    } else if alts is Some && alt_in(alts->0, "en"@) is Some {
        alt_in(alts->0, "en"@)->0
    } else {
        match as_object(titles) {
            Some(es) => if es.len() > 0 && as_str(Some(es[0].1)) is Some {
                as_str(Some(es[0].1))->0
            } else {
                seq!['?']
            },
            None => seq!['?'],
        }
    }
}

/// The Russian name of a title: its Russian title, else the first Russian
/// alternative title.
pub open spec fn spec_ru_title(attrs: Option<JsonValue>) -> Option<Seq<char>> {
    match as_str(get(get(attrs, "title"@), "ru"@)) {
        Some(t) => Some(t),
        None => match as_array(get(attrs, "altTitles"@)) {
            Some(alts) => alt_in(alts, "ru"@),
            None => None,
        },
    }
}

fn alt_in_exec(alts: &Vec<JsonValue>, lang: &str) -> (r: Option<String>)
    ensures
        match alt_in(alts@, lang@) {
            Some(t) => r matches Some(s) && s@ == t,
            None => r is None,
        },
{
    let mut i: usize = 0;
    assert(alts@.skip(0) =~= alts@);
    while i < alts.len()
        invariant
            i <= alts@.len(),
            alt_in(alts@, lang@) == alt_in(alts@.skip(i as int), lang@),
        decreases alts@.len() - i,
    {
        assert(alts@.skip(i as int)[0] == alts@[i as int]);
        assert(alts@.skip(i as int).drop_first() =~= alts@.skip(i + 1));
        match str_in(alts[i].field(lang)) {
            Some(t) => {
                return Some(t);
            },
            None => {},
        }
        i = i + 1;
    }
    None
}

/// The name to show for a title.
pub fn best_title(attrs: Option<&JsonValue>) -> (r: String)
    ensures
        r@ == spec_best_title(deref_opt(attrs)),
{
    let titles = get_in(attrs, "title");
    match str_in(get_in(titles, "ru")) {
        Some(t) => {
            return t;
        },
        None => {},
    }
    match str_in(get_in(titles, "en")) {
        Some(t) => {
            return t;
        },
        None => {},
    }
    match str_in(get_in(titles, "ja-ro")) {
        Some(t) => {
            return t;
        },
        None => {},
    }
    match array_in(get_in(attrs, "altTitles")) {
        Some(alts) => {
            match alt_in_exec(alts, "ru") {
                Some(t) => {
                    return t;
                },
                None => {},
            }
            match alt_in_exec(alts, "en") {
                Some(t) => {
                    return t;
                },
                None => {},
            }
        },
        None => {},
    }
    match object_in(titles) {
        Some(es) => {
            if es.len() > 0 {
                match str_in(Some(&es[0].1)) {
                    Some(t) => {
                        return t;
                    },
                    None => {},
                }
            }
        },
        None => {},
    }
    string_of(crate::text::one_char('?').as_slice())
}

/// The Russian name of a title, if it has one.
pub fn ru_title(attrs: Option<&JsonValue>) -> (r: Option<String>)
    ensures
        match spec_ru_title(deref_opt(attrs)) {
            Some(t) => r matches Some(s) && s@ == t,
            None => r is None,
        },
{
    match str_in(get_in(get_in(attrs, "title"), "ru")) {
        Some(t) => {
            return Some(t);
        },
        None => {},
    }
    match array_in(get_in(attrs, "altTitles")) {
        Some(alts) => alt_in_exec(alts, "ru"),
        None => None,
    }
}

// ----------------------------------------------------------------------------
// Chapters and pages
// ----------------------------------------------------------------------------

/// A chapter as volume, chapter number and chapter id.
pub type ChapterRef = (Seq<char>, Seq<char>, Seq<char>);

/// The chapters of one volume (`vol`), in order, that have a non-empty id.
pub open spec fn volume_chapters(vol: Seq<char>, chs: Seq<(String, JsonValue)>) -> Seq<ChapterRef>
    decreases chs.len(),
{
    if chs.len() == 0 {
        Seq::empty()
    } else {
        let prev = volume_chapters(vol, chs.drop_last());
        let id = match as_str(get(Some(chs.last().1), "id"@)) {
            Some(i) => i,
            None => Seq::empty(),
        };
        if id.len() > 0 {
            prev.push((vol, chs.last().0@, id))
        } else {
            prev
        }
    }
}

/// The chapters of the volumes `vols`, volume by volume, in order.
pub open spec fn all_chapters(vols: Seq<(String, JsonValue)>) -> Seq<ChapterRef>
    decreases vols.len(),
{
    if vols.len() == 0 {
        Seq::empty()
    } else {
        all_chapters(vols.drop_last()) + match as_object(get(Some(vols.last().1), "chapters"@)) {
            Some(chs) => volume_chapters(vols.last().0@, chs),
            None => Seq::empty(),
        }
    }
}

/// The chapters an aggregate answer lists, volume by volume in the answer's
/// order (they are sorted by number afterwards).
pub open spec fn spec_aggregate_chapters(agg: JsonValue) -> Seq<ChapterRef> {
    match as_object(get(Some(agg), "volumes"@)) {
        Some(vols) => all_chapters(vols),
        None => Seq::empty(),
    }
}

/// Chapters as texts.
pub open spec fn ref_views(v: Seq<(String, String, String)>) -> Seq<ChapterRef> {
    v.map_values(|c: (String, String, String)| (c.0@, c.1@, c.2@))
}

fn volume_chapters_exec(vol: &str, chs: &Vec<(String, JsonValue)>, out: &mut Vec<(String, String, String)>)
    ensures
        ref_views(final(out)@) == ref_views(old(out)@) + volume_chapters(vol@, chs@),
{
    let ghost start = ref_views(out@);
    let mut i: usize = 0;
    while i < chs.len()
        invariant
            i <= chs@.len(),
            ref_views(out@) == start + volume_chapters(vol@, chs@.take(i as int)),
        decreases chs@.len() - i,
    {
        assert(chs@.take(i + 1).drop_last() =~= chs@.take(i as int));
        assert(chs@.take(i + 1).last() == chs@[i as int]);
        let id = match str_in(chs[i].1.field("id")) {
            Some(s) => s,
            None => String::new(),
        };
        if !id.as_str().is_empty() {
            let ghost before = ref_views(out@);
            let c = (string_of(chars_of(vol).as_slice()), chs[i].0.clone(), id);
            let ghost cv = (c.0@, c.1@, c.2@);
            out.push(c);
            assert(ref_views(out@) =~= before.push(cv));
        }
        i = i + 1;
    }
    assert(chs@.take(chs@.len() as int) =~= chs@);
}

/// The chapters an aggregate answer lists, as (volume, chapter, id).
pub fn aggregate_chapters(agg: &JsonValue) -> (r: Vec<(String, String, String)>)
    ensures
        ref_views(r@) == spec_aggregate_chapters(*agg),
{
    let mut out: Vec<(String, String, String)> = Vec::new();
    match object_in(agg.field("volumes")) {
        Some(vols) => {
            let mut i: usize = 0;
            while i < vols.len()
                invariant
                    i <= vols@.len(),
                    ref_views(out@) == all_chapters(vols@.take(i as int)),
                decreases vols@.len() - i,
            {
                assert(vols@.take(i + 1).drop_last() =~= vols@.take(i as int));
                assert(vols@.take(i + 1).last() == vols@[i as int]);
                let ghost before = ref_views(out@);
                match object_in(vols[i].1.field("chapters")) {
                    Some(chs) => volume_chapters_exec(vols[i].0.as_str(), chs, &mut out),
                    None => {
                        assert(ref_views(out@) =~= before + Seq::<ChapterRef>::empty());
                    },
                }
                i = i + 1;
            }
            assert(vols@.take(vols@.len() as int) =~= vols@);
        },
        None => {},
    }
    out
}

/// The pages of a chapter from its server's answer: the server's address,
/// the chapter's hash, and the file names of its pages that are strings.
pub open spec fn spec_chapter_server(server: JsonValue) -> (Seq<char>, Seq<char>, Seq<Seq<char>>) {
    let base = match as_str(get(Some(server), "baseUrl"@)) {
        Some(b) => b,
        None => Seq::empty(),
    };
    let chapter = get(Some(server), "chapter"@);
    let hash = match as_str(get(chapter, "hash"@)) {
        Some(h) => h,
        None => Seq::empty(),
    };
    let pages = match as_array(get(chapter, "data"@)) {
        Some(a) => string_items(a),
        None => Seq::empty(),
    };
    (base, hash, pages)
}

/// The strings among `items`, in order.
pub open spec fn string_items(items: Seq<JsonValue>) -> Seq<Seq<char>>
    decreases items.len(),
{
    if items.len() == 0 {
        Seq::empty()
    } else {
        let prev = string_items(items.drop_last());
        match items.last() {
            JsonValue::Str(s) => prev.push(s@),
            _ => prev,
        }
    }
}

/// Where a chapter's pages are served and their file names.
pub fn chapter_server(server: &JsonValue) -> (r: (String, String, Vec<String>))
    ensures
        r.0@ == spec_chapter_server(*server).0,
        r.1@ == spec_chapter_server(*server).1,
        string_views(r.2@) == spec_chapter_server(*server).2,
{
    let base = match str_in(server.field("baseUrl")) {
        Some(b) => b,
        None => String::new(),
    };
    let chapter = server.field("chapter");
    let hash = match str_in(get_in(chapter, "hash")) {
        Some(h) => h,
        None => String::new(),
    };
    let mut pages: Vec<String> = Vec::new();
    match array_in(get_in(chapter, "data")) {
        Some(a) => {
            let mut i: usize = 0;
            while i < a.len()
                invariant
                    i <= a@.len(),
                    string_views(pages@) == string_items(a@.take(i as int)),
                decreases a@.len() - i,
            {
                assert(a@.take(i + 1).drop_last() =~= a@.take(i as int));
                assert(a@.take(i + 1).last() == a@[i as int]);
                match &a[i] {
                    JsonValue::Str(s) => {
                        let ghost before = string_views(pages@);
                        let t = s.clone();
                        pages.push(t);
                        assert(string_views(pages@) =~= before.push(t@));
                    },
                    _ => {},
                }
                i = i + 1;
            }
            assert(a@.take(a@.len() as int) =~= a@);
        },
        None => {},
    }
    (base, hash, pages)
}

/// The address of page `file` of a chapter.
pub open spec fn spec_page_url(base: Seq<char>, hash: Seq<char>, file: Seq<char>) -> Seq<char> {
    base + "/data/"@ + hash + seq!['/'] + file
}

/// The address of a page of a chapter.
pub fn page_url(base: &str, hash: &str, file: &str) -> (r: String)
    ensures
        r@ == spec_page_url(base@, hash@, file@),
{
    let mut v = chars_of(base);
    push_str(&mut v, "/data/");
    push_str(&mut v, hash);
    v.push('/');
    push_str(&mut v, file);
    string_of(v.as_slice())
}

/// The name page `n` (from 1) of a chapter is saved under: the number in
/// four digits and the extension of its file name (the part after the last
/// `.`, or the whole name).
pub open spec fn spec_md_page_name(n: u64, file: Seq<char>) -> Seq<char> {
    zero_pad(decimal(n as nat), 4) + seq!['.'] + after_last_char(file, '.')
}

/// The name page `n` of a chapter is saved under.
pub fn md_page_name(n: u64, file: &str) -> (r: String)
    ensures
        r@ == spec_md_page_name(n, file@),
{
    let mut v = padded_decimal_vec(n, 4);
    v.push('.');
    let f = chars_of(file);
    let ext = after_last_char_vec(f.as_slice(), '.');
    push_all(&mut v, ext.as_slice());
    string_of(v.as_slice())
}

/// A search result: the title's name, its id (`?` when missing) and its
/// Russian name.
pub open spec fn spec_search_row(item: JsonValue) -> (Seq<char>, Seq<char>, Option<Seq<char>>) {
    let attrs = get(Some(item), "attributes"@);
    (
        spec_best_title(attrs),
        match as_str(get(Some(item), "id"@)) {
            Some(i) => i,
            None => seq!['?'],
        },
        spec_ru_title(attrs),
    )
}

/// The search results of an answer; `None` when it lists none.
pub open spec fn spec_search_rows(json: JsonValue) -> Option<Seq<(Seq<char>, Seq<char>, Option<Seq<char>>)>> {
    match as_array(get(Some(json), "data"@)) {
        Some(d) => if d.len() > 0 {
            Some(d.map_values(|it: JsonValue| spec_search_row(it)))
        } else {
            None
        },
        None => None,
    }
}

/// A search result as texts.
pub open spec fn search_row_view(r: (String, String, Option<String>)) -> (Seq<char>, Seq<char>, Option<Seq<char>>) {
    (r.0@, r.1@, match r.2 {
        Some(s) => Some(s@),
        None => None,
    })
}

/// Search results as texts.
pub open spec fn search_row_views(v: Seq<(String, String, Option<String>)>) -> Seq<(Seq<char>, Seq<char>, Option<Seq<char>>)> {
    v.map_values(|r: (String, String, Option<String>)| search_row_view(r))
}

/// The search results of an answer, each as name, id and Russian name.
pub fn search_rows(json: &JsonValue) -> (r: Option<Vec<(String, String, Option<String>)>>)
    ensures
        match spec_search_rows(*json) {
            Some(rows) => r matches Some(v) && search_row_views(v@) == rows,
            None => r is None,
        },
{
    let data = match array_in(json.field("data")) {
        Some(d) => d,
        None => {
            return None;
        },
    };
    if data.len() == 0 {
        return None;
    }
    let mut out: Vec<(String, String, Option<String>)> = Vec::new();
    let mut i: usize = 0;
    while i < data.len()
        invariant
            i <= data@.len(),
            search_row_views(out@) == data@.take(i as int).map_values(|it: JsonValue| spec_search_row(it)),
        decreases data@.len() - i,
    {
        let item = &data[i];
        let attrs = item.field("attributes");
        let title = best_title(attrs);
        let id = match str_in(item.field("id")) {
            Some(s) => s,
            None => string_of(crate::text::one_char('?').as_slice()),
        };
        let ru = ru_title(attrs);
        let ghost before = search_row_views(out@);
        let row = (title, id, ru);
        let ghost rv = search_row_view(row);
        out.push(row);
        assert(rv == spec_search_row(data@[i as int]));
        assert(search_row_views(out@) =~= before.push(rv));
        assert(data@.take(i + 1).map_values(|it: JsonValue| spec_search_row(it)) =~= data@.take(
            i as int,
        ).map_values(|it: JsonValue| spec_search_row(it)).push(spec_search_row(data@[i as int])));
        i = i + 1;
    }
    assert(data@.take(data@.len() as int) =~= data@);
    Some(out)
}

// ----------------------------------------------------------------------------
// Download arguments and title references
// ----------------------------------------------------------------------------

/// A hexadecimal digit.
pub open spec fn is_hex(c: char) -> bool {
    ('0' <= c && c <= '9') || ('a' <= c && c <= 'f') || ('A' <= c && c <= 'F')
}

/// Where a UUID has its hyphens.
pub open spec fn uuid_dash_at(i: int) -> bool {
    i == 8 || i == 13 || i == 18 || i == 23
}

/// A UUID as mangadex writes it: 36 characters, hyphens at 8, 13, 18 and
/// 23, hexadecimal digits elsewhere.
pub open spec fn spec_is_uuid(s: Seq<char>) -> bool {
    s.len() == 36 && forall|i: int| 0 <= i < 36 ==> if uuid_dash_at(i) {
        #[trigger] s[i] == '-'
    } else {
        is_hex(s[i])
    }
}

/// Whether `s` is a title's UUID (else it is read as a title slug).
pub fn is_uuid(s: &str) -> (b: bool)
    ensures
        b == spec_is_uuid(s@),
{
    let v = chars_of(s);
    if v.len() != 36 {
        return false;
    }
    let mut i: usize = 0;
    while i < 36
        invariant
            i <= 36,
            v@ == s@,
            v@.len() == 36,
            forall|j: int| 0 <= j < i ==> if uuid_dash_at(j) {
                #[trigger] v@[j] == '-'
            } else {
                is_hex(v@[j])
            },
        decreases 36 - i,
    {
        let c = v[i];
        let ok = if i == 8 || i == 13 || i == 18 || i == 23 {
            c == '-'
        } else {
            ('0' <= c && c <= '9') || ('a' <= c && c <= 'f') || ('A' <= c && c <= 'F')
        };
        if !ok {
            assert(!(if uuid_dash_at(i as int) { v@[i as int] == '-' } else { is_hex(v@[i as int]) }));
            return false;
        }
        i = i + 1;
    }
    true
}

/// A mangadex download's arguments: titles alone (one title, or a first
/// one that is a UUID), saved into the working directory `.`; else a folder
/// followed by the titles. Nothing is asked for without arguments.
pub open spec fn spec_md_download(rest: Seq<Seq<char>>) -> Option<(Seq<char>, Seq<Seq<char>>)> {
    if rest.len() == 0 {
        None
    } else if rest.len() == 1 || spec_is_uuid(rest[0]) {
        Some(("."@, rest))
    } else {
        Some((rest[0], rest.drop_first()))
    }
}

/// The folder and the titles (UUIDs or slugs) a mangadex download asks for.
pub fn md_download_args(rest: &[String]) -> (r: Option<(String, Vec<String>)>)
    ensures
        match spec_md_download(rest@.map_values(|s: String| s@)) {
            Some((d, ts)) => r matches Some(x) && x.0@ == d && string_views(x.1@) == ts,
            None => r is None,
        },
{
    let ghost rv = rest@.map_values(|s: String| s@);
    if rest.len() == 0 {
        return None;
    }
    assert(rv[0] == rest@[0]@);
    if rest.len() == 1 || is_uuid(rest[0].as_str()) {
        let ids = crate::commands::strings_from(rest, 0);
        assert(rv.subrange(0, rest@.len() as int) =~= rv);
        return Some((string_of(chars_of(".").as_slice()), ids));
    }
    let ids = crate::commands::strings_from(rest, 1);
    assert(rv.subrange(1, rest@.len() as int) =~= rv.drop_first());
    Some((rest[0].clone(), ids))
}

/// The search text for a title slug: its hyphens read as spaces.
pub open spec fn spec_slug_title(slug: Seq<char>) -> Seq<char> {
    slug.map_values(|c: char| if c == '-' { ' ' } else { c })
}

/// The search text for a title slug, such as `chainsaw man` for
/// `chainsaw-man`.
pub fn slug_title(slug: &str) -> (r: String)
    ensures
        r@ == spec_slug_title(slug@),
{
    let v = chars_of(slug);
    let mut out: Vec<char> = Vec::new();
    let mut i: usize = 0;
    while i < v.len()
        invariant
            i <= v@.len(),
            out@ == spec_slug_title(v@.take(i as int)),
        decreases v@.len() - i,
    {
        let c = v[i];
        out.push(if c == '-' { ' ' } else { c });
        assert(spec_slug_title(v@.take(i + 1)) =~= spec_slug_title(v@.take(i as int)).push(
            if c == '-' { ' ' } else { c },
        ));
        i = i + 1;
    }
    assert(v@.take(v@.len() as int) =~= v@);
    string_of(out.as_slice())
}

/// The UUID of the first search result, when there is one with an id.
pub open spec fn spec_first_result_id(json: JsonValue) -> Option<Seq<char>> {
    match spec_search_rows(json) {
        Some(rows) => if rows[0].1 == seq!['?'] {
            None
        } else {
            Some(rows[0].1)
        },
        None => None,
    }
}

/// The UUID of the first search result, which a title slug stands for.
pub fn first_result_id(json: &JsonValue) -> (r: Option<String>)
    ensures
        match spec_first_result_id(*json) {
            Some(i) => r matches Some(s) && s@ == i,
            None => r is None,
        },
{
    match search_rows(json) {
        Some(rows) => {
            assert(search_row_views(rows@).len() == rows@.len());
            let id = &rows[0].1;
            assert(search_row_views(rows@)[0].1 == rows@[0].1@);
            let idc = chars_of(id.as_str());
            if crate::text::eq_chars(idc.as_slice(), crate::text::one_char('?').as_slice()) {
                None
            } else {
                Some(id.clone())
            }
        },
        None => None,
    }
}

} // verus!
