//! desu.uno listings read with regular expressions: a title's chapter list,
//! the ids on its pages, and the search results.
use vstd::prelude::*;
use crate::text::{
    chars_of, contains, contains_exec, ends_with, ends_with_exec, eq_chars, find, find_exec,
    find_from, find_from_exec, lemma_find_from, one_char, opt_u64, parse_bounded, parse_u64,
    push_str, string_of, string_views, sub_vec, trim_end_char, trim_end_char_vec,
    trim_start_char, trim_start_char_vec,
};
use crate::desu::{
    chapter_link_paths, extract_div_class, extract_manga_href, manga_relative,
    manga_relative_vec, spec_chapter_link_paths, spec_extract_div_class, spec_extract_manga_href,
    spec_strip_tags, strip_tags,
};
use crate::pattern::{captures, captures_all, group, group_views, match_views, regex_captures, regex_captures_all};

verus! {

/// The chapter id in a reader page's `"chapter": {... "id": N` data.
pub const READER_CHAPTER_ID: &'static str = "\"chapter\"\\s*:\\s*\\{[^}]*\"id\"\\s*:\\s*(\\d+)";

/// The manga id in a chapter list's `data-manga_id` attribute.
pub const CHLIST_MANGA_ID: &'static str = "data-manga_id=[\"'](\\d+)[\"']";

/// The inside of the `<ul class="...chlist...">` chapter list.
pub const CHLIST_BLOCK: &'static str = "(?s)<ul[^>]*\\bclass=[\"'][^\"']*chlist[^\"']*[\"'][^>]*>(.*?)</ul>";

/// The inside of each `<li>` element.
pub const LIST_ITEM: &'static str = "(?s)<li[^>]*>(.*?)</li>";

/// A chapter's id in its download button.
pub const CHAPTER_ID_ATTR: &'static str = "data-chapters_id=[\"'](\\d+)[\"']";

/// The target of the first link.
pub const LINK_TARGET: &'static str = "href=[\"']([^\"']+)[\"']";

/// The `slug.id` a search result links to.
pub const SEARCH_LINK: &'static str = "href=[\"'](?:/)?manga/([^\"']+)[\"']";

/// A search card's title.
pub const CARD_TITLE: &'static str = "(?s)class=[\"'][^\"']*AniMangaSearchCard__title[^\"']*[\"'][^>]*>(.*?)</span>";

/// A search card's subtitle.
pub const CARD_SUBTITLE: &'static str = "(?s)class=[\"'][^\"']*AniMangaSearchCard__subtitle[^\"']*[\"'][^>]*>(.*?)</span>";

/// The number the first group of `pattern`'s match in `text` writes, when it
/// fits in a `u64`.
pub open spec fn id_in(pattern: Seq<char>, text: Seq<char>) -> Option<nat> {
    match group(regex_captures(pattern, text), 1) {
        Some(d) => parse_bounded(d, u64::MAX as nat),
        None => None,
    }
}

fn id_in_exec(pattern: &str, text: &str) -> (r: Option<u64>)
    ensures
        opt_u64(r) == id_in(pattern@, text@),
{
    let m = captures(pattern, text);
    match crate::pattern::group_of(&m, 1) {
        Some(d) => parse_u64(d.as_str()),
        None => None,
    }
}

/// The id of the chapter a reader page shows.
pub fn parse_chapter_id_from_reader_html(html: &str) -> (r: Option<u64>)
    ensures
        opt_u64(r) == id_in(READER_CHAPTER_ID@, html@),
{
    id_in_exec(READER_CHAPTER_ID, html)
}

/// The manga id a chapter list names.
pub fn parse_manga_id_from_chlist(html: &str) -> (r: Option<u64>)
    ensures
        opt_u64(r) == id_in(CHLIST_MANGA_ID@, html@),
{
    id_in_exec(CHLIST_MANGA_ID, html)
}

// ----------------------------------------------------------------------------
// Chapter list
// ----------------------------------------------------------------------------

/// A chapter of a manga: its id when the page gives one, and its path on the
/// site.
#[derive(Debug, Clone)]
pub struct DesuChapter {
    pub id: Option<u64>,
    pub path: String,
}

/// A chapter as an id and a path.
pub open spec fn chapter_view(c: DesuChapter) -> (Option<nat>, Seq<char>) {
    (opt_u64(c.id), c.path@)
}

/// The chapters of a list, each as an id and a path.
pub open spec fn chapter_views(cs: Seq<DesuChapter>) -> Seq<(Option<nat>, Seq<char>)> {
    cs.map_values(|c: DesuChapter| chapter_view(c))
}

/// The paths of a list of chapters.
pub open spec fn paths_of(cs: Seq<(Option<nat>, Seq<char>)>) -> Seq<Seq<char>> {
    cs.map_values(|c: (Option<nat>, Seq<char>)| c.1)
}

/// Where the chapter list is looked for: inside the `chlist` list when the
/// page has one, else the whole page.
pub open spec fn chapter_scope(html: Seq<char>) -> Seq<char> {
    match group(regex_captures(CHLIST_BLOCK@, html), 1) {
        Some(s) => s,
        None => html,
    }
}

/// The path a list item's link gives, relative to the site without a
/// leading `/`, when it looks like a chapter (holds `/vol` or `/ch`, or ends
/// in `/rus`).
pub open spec fn item_chapter_path(li: Seq<char>) -> Option<Seq<char>> {
    match group(regex_captures(LINK_TARGET@, li), 1) {
        Some(h) => {
            let href = trim_end_char(h, '/');
            if contains(href, "/vol"@) || contains(href, "/ch"@) || ends_with(href, "/rus"@) {
                Some(trim_start_char(manga_relative(href), '/'))
            } else {
                None
            }
        },
        None => None,
    }
}

/// The first group of a match, when there is one.
pub open spec fn first_group(m: Seq<Option<Seq<char>>>) -> Option<Seq<char>> {
    if m.len() > 1 {
        m[1]
    } else {
        None
    }
}

/// The chapters the list items (given as matches of `LIST_ITEM`) link to,
/// each path once, first occurrence kept, with the id of its download button.
/// A match whose first group took no part (which the pattern cannot produce)
/// is passed over.
pub open spec fn list_chapters(ms: Seq<Seq<Option<Seq<char>>>>) -> Seq<(Option<nat>, Seq<char>)>
    decreases ms.len(),
{
    if ms.len() == 0 {
        Seq::empty()
    } else {
        let prev = list_chapters(ms.drop_last());
        match first_group(ms.last()) {
            Some(li) => match item_chapter_path(li) {
                Some(p) => if paths_of(prev).contains(p) {
                    prev
                } else {
                    prev.push((id_in(CHAPTER_ID_ATTR@, li), p))
                },
                None => prev,
            },
            None => prev,
        }
    }
}

/// The chapters of a title's page, in page order: those of the chapter list
/// with their ids; when it gives none, the chapter links of the page,
/// without ids.
pub open spec fn spec_chapter_list(html: Seq<char>, slug_id: Seq<char>) -> Seq<(Option<nat>, Seq<char>)> {
    let found = list_chapters(regex_captures_all(LIST_ITEM@, chapter_scope(html)));
    if found.len() > 0 {
        found
    } else {
        spec_chapter_link_paths(html, slug_id).map_values(|p: Seq<char>| (None::<nat>, p))
    }
}

fn has_path(cs: &Vec<DesuChapter>, p: &[char]) -> (b: bool)
    ensures
        b == paths_of(chapter_views(cs@)).contains(p@),
{
    let mut i: usize = 0;
    while i < cs.len()
        invariant
            i <= cs@.len(),
            forall|j: int| 0 <= j < i ==> paths_of(chapter_views(cs@))[j] != p@,
        decreases cs@.len() - i,
    {
        let c = chars_of(cs[i].path.as_str());
        if eq_chars(c.as_slice(), p) {
            assert(paths_of(chapter_views(cs@))[i as int] == p@);
            return true;
        }
        i = i + 1;
    }
    false
}

fn item_chapter_path_exec(li: &str) -> (r: Option<Vec<char>>)
    ensures
        match r {
            Some(v) => item_chapter_path(li@) == Some(v@),
            None => item_chapter_path(li@) is None,
        },
{
    let m = captures(LINK_TARGET, li);
    let h = match crate::pattern::group_of(&m, 1) {
        Some(h) => h,
        None => {
            return None;
        },
    };
    let hv = chars_of(h.as_str());
    let href = trim_end_char_vec(hv.as_slice(), '/');
    let vol = chars_of("/vol");
    let ch = chars_of("/ch");
    let rus = chars_of("/rus");
    if contains_exec(href.as_slice(), vol.as_slice()) || contains_exec(href.as_slice(), ch.as_slice())
        || ends_with_exec(href.as_slice(), rus.as_slice()) {
        let rel = manga_relative_vec(href.as_slice());
        Some(trim_start_char_vec(rel.as_slice(), '/'))
    } else {
        None
    }
}

/// The chapters of a title's page, each path once, in page order (they are
/// sorted by volume and chapter afterwards).
pub fn chapter_list(html: &str, slug_id: &str) -> (r: Vec<DesuChapter>)
    ensures
        chapter_views(r@) == spec_chapter_list(html@, slug_id@),
{
    let scope_m = captures(CHLIST_BLOCK, html);
    let scope = match crate::pattern::group_of(&scope_m, 1) {
        Some(s) => s,
        None => string_of(chars_of(html).as_slice()),
    };
    assert(scope@ == chapter_scope(html@));
    let items = captures_all(LIST_ITEM, scope.as_str());
    let ghost ms = match_views(items@);
    let mut out: Vec<DesuChapter> = Vec::new();
    let mut i: usize = 0;
    while i < items.len()
        invariant
            i <= items@.len(),
            ms == match_views(items@),
            chapter_views(out@) == list_chapters(ms.take(i as int)),
        decreases items@.len() - i,
    {
        assert(ms.take(i + 1).drop_last() =~= ms.take(i as int));
        assert(ms.take(i + 1).last() == group_views(items@[i as int]@));
        let g = &items[i];
        let li: Option<String> = if g.len() > 1 {
            match &g[1] {
                Some(s) => Some(s.clone()),
                None => None,
            }
        } else {
            None
        };
        match li {
            Some(li) => {
                match item_chapter_path_exec(li.as_str()) {
                    Some(p) => {
                        if !has_path(&out, p.as_slice()) {
                            let id = id_in_exec(CHAPTER_ID_ATTR, li.as_str());
                            let ghost before = chapter_views(out@);
                            let c = DesuChapter { id, path: string_of(p.as_slice()) };
                            out.push(c);
                            assert(chapter_views(out@) =~= before.push(chapter_view(c)));
                        }
                    },
                    None => {},
                }
            },
            None => {},
        }
        i = i + 1;
    }
    assert(ms.take(items@.len() as int) =~= ms);
    if out.len() > 0 {
        return out;
    }
    let paths = chapter_link_paths(html, slug_id);
    let ghost pv = spec_chapter_link_paths(html@, slug_id@);
    let mut res: Vec<DesuChapter> = Vec::new();
    let mut k: usize = 0;
    while k < paths.len()
        invariant
            k <= paths@.len(),
            string_views(paths@) == pv,
            chapter_views(res@) == pv.take(k as int).map_values(|p: Seq<char>| (None::<nat>, p)),
        decreases paths@.len() - k,
    {
        let ghost before = chapter_views(res@);
        let c = DesuChapter { id: None, path: paths[k].clone() };
        res.push(c);
        assert(chapter_views(res@) =~= before.push(chapter_view(c)));
        assert(pv.take(k + 1).map_values(|p: Seq<char>| (None::<nat>, p)) =~= pv.take(k as int).map_values(
            |p: Seq<char>| (None::<nat>, p),
        ).push((None::<nat>, pv[k as int])));
        k = k + 1;
    }
    assert(pv.take(paths@.len() as int) =~= pv);
    res
}

// ----------------------------------------------------------------------------
// Search results
// ----------------------------------------------------------------------------

/// A search result: the title's `slug.id`, its English and its Russian name.
pub type SearchHit = (Seq<char>, Seq<char>, Seq<char>);

/// The group-1 text of `pattern`'s match in `block` with its tags stripped,
/// or empty.
pub open spec fn card_text(pattern: Seq<char>, block: Seq<char>) -> Seq<char> {
    match group(regex_captures(pattern, block), 1) {
        Some(t) => spec_strip_tags(t),
        None => Seq::empty(),
    }
}

/// The result a list item of the search answer gives: it must link to a
/// `manga/<slug.id>` (trailing `/` dropped, not empty); its names come from
/// the search card's title (Russian) and subtitle (English), or, when both
/// are empty, from the older `itemTitle` (English) and `itemSubTitle`
/// (Russian) elements.
pub open spec fn card_hit(block: Seq<char>) -> Option<SearchHit> {
    match group(regex_captures(SEARCH_LINK@, block), 1) {
        None => None,
        Some(h) => {
            let slug = trim_end_char(h, '/');
            let ru = card_text(CARD_TITLE@, block);
            let en = card_text(CARD_SUBTITLE@, block);
            let names = if ru.len() == 0 && en.len() == 0 {
                (spec_extract_div_class(block, "itemTitle"@), spec_extract_div_class(block, "itemSubTitle"@))
            } else {
                (en, ru)
            };
            if slug.len() > 0 {
                Some((slug, names.0, names.1))
            } else {
                None
            }
        },
    }
}

/// The results the list items (matches of `LIST_ITEM`) give, in order.
pub open spec fn card_hits(ms: Seq<Seq<Option<Seq<char>>>>) -> Seq<SearchHit>
    decreases ms.len(),
{
    if ms.len() == 0 {
        Seq::empty()
    } else {
        let prev = card_hits(ms.drop_last());
        match first_group(ms.last()) {
            Some(block) => match card_hit(block) {
                Some(hit) => prev.push(hit),
                None => prev,
            },
            None => prev,
        }
    }
}

/// The manga part of an older search answer: from `>Манга<` up to
/// `>Аниме<` (or the end); the whole answer when it has no `>Манга<`.
pub open spec fn manga_section(html: Seq<char>) -> Seq<char> {
    match find(html, ">Манга<"@) {
        Some(p) => {
            let rest = html.skip(p);
            match find(rest, ">Аниме<"@) {
                Some(e) => rest.take(e),
                None => rest,
            }
        },
        None => html,
    }
}

/// The `<li>` blocks of `sec` from `pos` on: each from `<li>` through the
/// next `</li>`, or to the end when it is not closed.
pub open spec fn li_blocks(sec: Seq<char>, pos: int) -> Seq<Seq<char>>
    decreases sec.len() - pos,
{
    if pos < 0 || pos > sec.len() {
        Seq::empty()
    } else {
        match find_from(sec, "<li>"@, pos) {
            None => Seq::empty(),
            Some(start) => {
                let end = match find_from(sec, "</li>"@, start) {
                    Some(e) => e + 5,
                    None => sec.len() as int,
                };
                proof {
                    lemma_find_from(sec, "<li>"@, pos);
                    lemma_find_from(sec, "</li>"@, start);
                    reveal_strlit("<li>");
                    reveal_strlit("</li>");
                }
                seq![sec.subrange(start, end)] + li_blocks(sec, end)
            },
        }
    }
}

/// The results of the older answer's blocks: those that link to a manga,
/// with their `itemTitle` (English) and `itemSubTitle` (Russian) names.
pub open spec fn block_hits(blocks: Seq<Seq<char>>) -> Seq<SearchHit>
    decreases blocks.len(),
{
    if blocks.len() == 0 {
        Seq::empty()
    } else {
        let prev = block_hits(blocks.drop_last());
        let b = blocks.last();
        match spec_extract_manga_href(b) {
            Some(slug) => prev.push((slug, spec_extract_div_class(b, "itemTitle"@), spec_extract_div_class(b, "itemSubTitle"@))),
            None => prev,
        }
    }
}

/// The results of a search answer's HTML, in order: from its list items,
/// or, when they give none, from the manga part of the older layout.
pub open spec fn spec_parse_search_results(html: Seq<char>) -> Seq<SearchHit> {
    let hits = card_hits(regex_captures_all(LIST_ITEM@, html));
    if hits.len() > 0 {
        hits
    } else {
        block_hits(li_blocks(manga_section(html), 0))
    }
}

/// A result as texts.
pub open spec fn hit_views(v: Seq<(String, String, String)>) -> Seq<SearchHit> {
    v.map_values(|h: (String, String, String)| (h.0@, h.1@, h.2@))
}

fn card_text_exec(pattern: &str, block: &str) -> (r: String)
    ensures
        r@ == card_text(pattern@, block@),
{
    let m = captures(pattern, block);
    match crate::pattern::group_of(&m, 1) {
        Some(t) => strip_tags(t.as_str()),
        None => String::new(),
    }
}

fn card_hit_exec(block: &str) -> (r: Option<(String, String, String)>)
    ensures
        match r {
            Some(h) => card_hit(block@) == Some((h.0@, h.1@, h.2@)),
            None => card_hit(block@) is None,
        },
{
    let m = captures(SEARCH_LINK, block);
    let h = match crate::pattern::group_of(&m, 1) {
        Some(h) => h,
        None => {
            return None;
        },
    };
    let hv = chars_of(h.as_str());
    let slug = trim_end_char_vec(hv.as_slice(), '/');
    let ru = card_text_exec(CARD_TITLE, block);
    let en = card_text_exec(CARD_SUBTITLE, block);
    let (en, ru) = if ru.as_str().is_empty() && en.as_str().is_empty() {
        (extract_div_class(block, "itemTitle"), extract_div_class(block, "itemSubTitle"))
    } else {
        (en, ru)
    };
    if slug.len() > 0 {
        Some((string_of(slug.as_slice()), en, ru))
    } else {
        None
    }
}

fn manga_section_vec(h: &[char]) -> (r: Vec<char>)
    ensures
        r@ == manga_section(h@),
{
    let open = chars_of(">Манга<");
    let close = chars_of(">Аниме<");
    proof {
        lemma_find_from(h@, ">Манга<"@, 0);
    }
    match find_exec(h, open.as_slice()) {
        Some(p) => {
            let n = h.len();
            let rest = sub_vec(h, p, n);
            assert(rest@ == h@.skip(p as int));
            proof {
                lemma_find_from(rest@, ">Аниме<"@, 0);
            }
            match find_exec(rest.as_slice(), close.as_slice()) {
                Some(e) => sub_vec(rest.as_slice(), 0, e),
                None => rest,
            }
        },
        None => crate::text::copy_vec(h),
    }
}

/// The results of a search answer's HTML: `(slug.id, English name, Russian
/// name)` for each title, in order.
pub fn parse_search_results(html: &str) -> (r: Vec<(String, String, String)>)
    ensures
        hit_views(r@) == spec_parse_search_results(html@),
{
    let items = captures_all(LIST_ITEM, html);
    let ghost ms = match_views(items@);
    let mut out: Vec<(String, String, String)> = Vec::new();
    let mut i: usize = 0;
    while i < items.len()
        invariant
            i <= items@.len(),
            ms == match_views(items@),
            hit_views(out@) == card_hits(ms.take(i as int)),
        decreases items@.len() - i,
    {
        assert(ms.take(i + 1).drop_last() =~= ms.take(i as int));
        assert(ms.take(i + 1).last() == group_views(items@[i as int]@));
        let g = &items[i];
        let block: Option<String> = if g.len() > 1 {
            match &g[1] {
                Some(s) => Some(s.clone()),
                None => None,
            }
        } else {
            None
        };
        match block {
            Some(b) => match card_hit_exec(b.as_str()) {
                Some(hit) => {
                    let ghost before = hit_views(out@);
                    let ghost hv = (hit.0@, hit.1@, hit.2@);
                    out.push(hit);
                    assert(hit_views(out@) =~= before.push(hv));
                },
                None => {},
            },
            None => {},
        }
        i = i + 1;
    }
    assert(ms.take(items@.len() as int) =~= ms);
    if out.len() > 0 {
        return out;
    }
    let h = chars_of(html);
    let sec = manga_section_vec(h.as_slice());
    let li_open = chars_of("<li>");
    let li_close = chars_of("</li>");
    let ghost all = li_blocks(sec@, 0);
    let ghost mut done: Seq<Seq<char>> = Seq::empty();
    let mut res: Vec<(String, String, String)> = Vec::new();
    let mut pos: usize = 0;
    while pos <= sec.len()
        invariant
            pos <= sec@.len(),
            li_open@ == "<li>"@,
            li_close@ == "</li>"@,
            all == li_blocks(sec@, 0),
            all == done + li_blocks(sec@, pos as int),
            hit_views(res@) == block_hits(done),
        ensures
            hit_views(res@) == block_hits(all),
        decreases sec@.len() - pos,
    {
        proof {
            lemma_find_from(sec@, "<li>"@, pos as int);
            reveal_strlit("<li>");
            reveal_strlit("</li>");
        }
        let start = match find_from_exec(sec.as_slice(), li_open.as_slice(), pos) {
            Some(s) => s,
            None => {
                assert(li_blocks(sec@, pos as int) =~= Seq::<Seq<char>>::empty());
                assert(done + Seq::<Seq<char>>::empty() =~= done);
                break;
            },
        };
        proof {
            lemma_find_from(sec@, "</li>"@, start as int);
        }
        let end = match find_from_exec(sec.as_slice(), li_close.as_slice(), start) {
            Some(e) => e + 5,
            None => sec.len(),
        };
        let block = sub_vec(sec.as_slice(), start, end);
        let block_s = string_of(block.as_slice());
        let ghost before = done;
        proof {
            done = done.push(block@);
            assert(done.drop_last() == before);
            assert(before + li_blocks(sec@, pos as int) =~= done + li_blocks(sec@, end as int));
        }
        match extract_manga_href(block_s.as_str()) {
            Some(slug) => {
                let en = extract_div_class(block_s.as_str(), "itemTitle");
                let ru = extract_div_class(block_s.as_str(), "itemSubTitle");
                let ghost hb = hit_views(res@);
                let ghost hv = (slug@, en@, ru@);
                res.push((slug, en, ru));
                assert(hit_views(res@) =~= hb.push(hv));
            },
            None => {},
        }
        pos = end;
    }
    res
}

} // verus!
