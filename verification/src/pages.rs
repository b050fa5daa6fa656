//! desu.uno manga downloads: the addresses a title and its chapters are
//! fetched from, and the steps by which a chapter's page addresses are
//! found (chapter API first, then the reader page).
use vstd::prelude::*;
use crate::text::{
    chars_of, decimal, decimal_vec, push_all, push_str, string_of, string_views,
};
use crate::desu::{
    parse_h1, parse_reader_init, slug_from_url, spec_parse_h1, spec_parse_reader_init,
    spec_slug_from_url, BASE,
};
use crate::listing::{id_in, parse_chapter_id_from_reader_html, parse_manga_id_from_chlist, READER_CHAPTER_ID, CHLIST_MANGA_ID};

verus! {

// ----------------------------------------------------------------------------
// Addresses
// ----------------------------------------------------------------------------

/// `<slug>.<id>`.
pub open spec fn spec_slug_id(slug: Seq<char>, id: u64) -> Seq<char> {
    slug + seq!['.'] + decimal(id as nat)
}

/// The `slug.id` of a title.
pub fn slug_id_text(slug: &str, id: u64) -> (r: String)
    ensures
        r@ == spec_slug_id(slug@, id),
{
    let mut v = chars_of(slug);
    v.push('.');
    let d = decimal_vec(id);
    push_all(&mut v, d.as_slice());
    string_of(v.as_slice())
}

/// The address of a manga's page.
pub open spec fn spec_manga_url(slug_id: Seq<char>) -> Seq<char> {
    BASE@ + "/manga/"@ + slug_id + seq!['/']
}

/// The address of a manga's page, `https://desu.uno/manga/<slug.id>/`.
pub fn manga_url(slug_id: &str) -> (r: String)
    ensures
        r@ == spec_manga_url(slug_id@),
{
    let mut v = chars_of(BASE);
    push_str(&mut v, "/manga/");
    push_str(&mut v, slug_id);
    v.push('/');
    string_of(v.as_slice())
}

/// The address of a ranobe's page.
pub open spec fn spec_ranobe_url(slug: Seq<char>) -> Seq<char> {
    BASE@ + "/ranobe/"@ + slug + seq!['/']
}

/// The address of a ranobe's page, `https://desu.uno/ranobe/<slug.id>/`.
pub fn ranobe_url(slug: &str) -> (r: String)
    ensures
        r@ == spec_ranobe_url(slug@),
{
    let mut v = chars_of(BASE);
    push_str(&mut v, "/ranobe/");
    push_str(&mut v, slug);
    v.push('/');
    string_of(v.as_slice())
}

/// The address of a title's cover picture (`kind` is `manga` or `ranobe`).
pub open spec fn spec_cover_url(kind: Seq<char>, id: u64) -> Seq<char> {
    "https://static.desu.uno/data/"@ + kind + "/covers/preview/"@ + decimal(id as nat) + ".jpg"@
}

/// The address of a title's cover picture.
pub fn cover_url(kind: &str, id: u64) -> (r: String)
    ensures
        r@ == spec_cover_url(kind@, id),
{
    let mut v = chars_of("https://static.desu.uno/data/");
    push_str(&mut v, kind);
    push_str(&mut v, "/covers/preview/");
    let d = decimal_vec(id);
    push_all(&mut v, d.as_slice());
    push_str(&mut v, ".jpg");
    string_of(v.as_slice())
}

/// The chapter API address of a manga chapter.
pub open spec fn spec_chapter_api_url(manga_id: u64, chapter_id: u64) -> Seq<char> {
    BASE@ + "/api/manga/"@ + decimal(manga_id as nat) + "/chapters/"@ + decimal(chapter_id as nat)
}

/// The chapter API address of a manga chapter.
pub fn chapter_api_url(manga_id: u64, chapter_id: u64) -> (r: String)
    ensures
        r@ == spec_chapter_api_url(manga_id, chapter_id),
{
    let mut v = chars_of(BASE);
    push_str(&mut v, "/api/manga/");
    let a = decimal_vec(manga_id);
    push_all(&mut v, a.as_slice());
    push_str(&mut v, "/chapters/");
    let b = decimal_vec(chapter_id);
    push_all(&mut v, b.as_slice());
    string_of(v.as_slice())
}

/// The API address of a ranobe's chapter list, or, with a chapter id, of
/// that chapter's content.
pub open spec fn spec_ranobe_api_url(ranobe_id: u64, chapter_id: Option<u64>) -> Seq<char> {
    let list = BASE@ + "/api/ranobe/"@ + decimal(ranobe_id as nat) + "/chapters"@;
    match chapter_id {
        Some(c) => list + seq!['/'] + decimal(c as nat),
        None => list,
    }
}

/// The API address of a ranobe's chapter list or of one of its chapters.
pub fn ranobe_api_url(ranobe_id: u64, chapter_id: Option<u64>) -> (r: String)
    ensures
        r@ == spec_ranobe_api_url(ranobe_id, chapter_id),
{
    let mut v = chars_of(BASE);
    push_str(&mut v, "/api/ranobe/");
    let a = decimal_vec(ranobe_id);
    push_all(&mut v, a.as_slice());
    push_str(&mut v, "/chapters");
    match chapter_id {
        Some(c) => {
            v.push('/');
            let b = decimal_vec(c);
            push_all(&mut v, b.as_slice());
        },
        None => {},
    }
    string_of(v.as_slice())
}

/// The reader page of a chapter, from its path on the site.
pub open spec fn spec_reader_url(path: Seq<char>) -> Seq<char> {
    BASE@ + seq!['/'] + path
}

/// The reader page of a chapter.
pub fn reader_url(path: &str) -> (r: String)
    ensures
        r@ == spec_reader_url(path@),
{
    let mut v = chars_of(BASE);
    v.push('/');
    push_str(&mut v, path);
    string_of(v.as_slice())
}

// ----------------------------------------------------------------------------
// A manga's page
// ----------------------------------------------------------------------------

/// What a manga's page tells: the name to show, the `slug.id` it is now
/// known by, and the id its chapter list uses.
pub struct MangaPage {
    pub name: String,
    pub slug_id: String,
    pub manga_id: u64,
}

/// The name of a title: its page's `<h1>`, else `fallback`.
pub open spec fn spec_title_name(html: Seq<char>, fallback: Seq<char>) -> Seq<char> {
    match spec_parse_h1(html) {
        Some(n) => n,
        None => fallback,
    }
}

/// The name of a title, from its page when it could be fetched.
pub fn title_name(html: Option<&str>, fallback: &str) -> (r: String)
    ensures
        r@ == match html {
            Some(h) => spec_title_name(h@, fallback@),
            None => fallback@,
        },
{
    let found = match html {
        Some(h) => parse_h1(h),
        None => None,
    };
    match found {
        Some(n) => n,
        None => string_of(chars_of(fallback).as_slice()),
    }
}

/// What the page of manga `slug_id` (id `id`), served from `final_url`,
/// tells: its `<h1>` name (else the `slug.id`), the `slug.id` in the
/// address it was served from (else the one asked for), and the id in its
/// chapter list (else `id`).
pub fn manga_page(html: &str, final_url: &str, slug_id: &str, id: u64) -> (r: MangaPage)
    ensures
        r.name@ == spec_title_name(html@, slug_id@),
        r.slug_id@ == match spec_slug_from_url(final_url@, decimal(id as nat)) {
            Some(s) => s,
            None => slug_id@,
        },
        r.manga_id as nat == match id_in(CHLIST_MANGA_ID@, html@) {
            Some(m) => m,
            None => id as nat,
        },
{
    let name = title_name(Some(html), slug_id);
    let digits = decimal_vec(id);
    let id_s = string_of(digits.as_slice());
    let actual = match slug_from_url(final_url, id_s.as_str()) {
        Some(s) => s,
        None => string_of(chars_of(slug_id).as_slice()),
    };
    let manga_id = match parse_manga_id_from_chlist(html) {
        Some(m) => m,
        None => id,
    };
    MangaPage { name, slug_id: actual, manga_id }
}

// ----------------------------------------------------------------------------
// Finding a chapter's pages
// ----------------------------------------------------------------------------

/// Where the search for a chapter's pages stands: at the first API answer,
/// at the reader page, or at the API answer for the id the reader page
/// gave (with the addresses its old-style script lists, to fall back on).
pub enum PagesPhase {
    FirstApi,
    Reader,
    ReaderApi(Vec<String>),
}

/// What happened last: the chapter is taken up (with the id its download
/// button gave, if any), the API answered (with page addresses, or not),
/// or the reader page came (or could not be fetched).
pub enum PagesEvent {
    Start(Option<u64>),
    ApiPages(Option<Vec<String>>),
    ReaderPage(Option<String>),
}

/// What to do next: ask the chapter API, fetch the reader page, download
/// the pages, or give up on the chapter.
pub enum PagesStep {
    Api(u64),
    Reader(String),
    Download(Vec<String>),
    NoPages,
}

/// The addresses an old-style reader script lists: the folder followed by
/// each file name.
pub open spec fn reader_script_pages(html: Seq<char>) -> Seq<Seq<char>> {
    match spec_parse_reader_init(html) {
        Some((dir, names)) => names.map_values(|n: Seq<char>| dir + n),
        None => Seq::empty(),
    }
}

/// A phase as plain values.
pub enum PhaseView {
    FirstApi,
    Reader,
    ReaderApi(Seq<Seq<char>>),
}

/// An event as plain values.
pub enum EventView {
    Start(Option<u64>),
    ApiPages(Option<Seq<Seq<char>>>),
    ReaderPage(Option<Seq<char>>),
}

/// A step as plain values.
pub enum StepView {
    Api(u64),
    Reader(Seq<char>),
    Download(Seq<Seq<char>>),
    NoPages,
}

pub open spec fn phase_view(p: PagesPhase) -> PhaseView {
    match p {
        PagesPhase::FirstApi => PhaseView::FirstApi,
        PagesPhase::Reader => PhaseView::Reader,
        PagesPhase::ReaderApi(v) => PhaseView::ReaderApi(string_views(v@)),
    }
}

pub open spec fn event_view(e: PagesEvent) -> EventView {
    match e {
        PagesEvent::Start(c) => EventView::Start(c),
        PagesEvent::ApiPages(p) => EventView::ApiPages(
            match p {
                Some(v) => Some(string_views(v@)),
                None => None,
            },
        ),
        PagesEvent::ReaderPage(h) => EventView::ReaderPage(
            match h {
                Some(s) => Some(s@),
                None => None,
            },
        ),
    }
}

pub open spec fn step_view(s: PagesStep) -> StepView {
    match s {
        PagesStep::Api(c) => StepView::Api(c),
        PagesStep::Reader(u) => StepView::Reader(u@),
        PagesStep::Download(v) => StepView::Download(string_views(v@)),
        PagesStep::NoPages => StepView::NoPages,
    }
}

/// The next phase and step for a chapter at `path`:
/// - a chapter with a download-button id is first asked of the API; one
///   without goes to its reader page;
/// - pages from the first API answer are downloaded; none send the search
///   to the reader page;
/// - a reader page that could not be fetched ends the search; one whose
///   data names a chapter id has that id asked of the API, its old-style
///   script pages kept to fall back on; else its script pages are
///   downloaded, if it lists any;
/// - pages from that second API answer are downloaded, else the script
///   pages, if any.
/// An event that does not fit the phase gives up on the chapter.
pub open spec fn spec_next_pages(phase: PhaseView, event: EventView, path: Seq<char>) -> (PhaseView, StepView) {
    match event {
        EventView::Start(Some(cid)) => (PhaseView::FirstApi, StepView::Api(cid)),
        EventView::Start(None) => (PhaseView::Reader, StepView::Reader(spec_reader_url(path))),
        EventView::ApiPages(pages) => {
            let got = match pages {
                Some(p) => p,
                None => Seq::empty(),
            };
            match phase {
                PhaseView::FirstApi => if got.len() > 0 {
                    (PhaseView::FirstApi, StepView::Download(got))
                } else {
                    (PhaseView::Reader, StepView::Reader(spec_reader_url(path)))
                },
                PhaseView::ReaderApi(fallback) => if got.len() > 0 {
                    (phase, StepView::Download(got))
                } else if fallback.len() > 0 {
                    (phase, StepView::Download(fallback))
                } else {
                    (phase, StepView::NoPages)
                },
                PhaseView::Reader => (phase, StepView::NoPages),
            }
        },
        EventView::ReaderPage(page) => match phase {
            PhaseView::Reader => match page {
                None => (phase, StepView::NoPages),
                Some(html) => {
                    let script = reader_script_pages(html);
                    match id_in(READER_CHAPTER_ID@, html) {
                        Some(cid) => (PhaseView::ReaderApi(script), StepView::Api(cid as u64)),
                        None => if script.len() > 0 {
                            (phase, StepView::Download(script))
                        } else {
                            (phase, StepView::NoPages)
                        },
                    }
                },
            },
            _ => (phase, StepView::NoPages),
        },
    }
}

fn script_pages(html: &str) -> (r: Vec<String>)
    ensures
        string_views(r@) == reader_script_pages(html@),
{
    match parse_reader_init(html) {
        Some((dir, names)) => {
            let ghost nv = string_views(names@);
            let mut out: Vec<String> = Vec::new();
            let mut i: usize = 0;
            while i < names.len()
                invariant
                    i <= names@.len(),
                    nv == string_views(names@),
                    string_views(out@) == nv.take(i as int).map_values(|n: Seq<char>| dir@ + n),
                decreases names@.len() - i,
            {
                let mut v = chars_of(dir.as_str());
                push_str(&mut v, names[i].as_str());
                let s = string_of(v.as_slice());
                let ghost before = string_views(out@);
                out.push(s);
                assert(string_views(out@) =~= before.push(s@));
                assert(nv.take(i + 1).map_values(|n: Seq<char>| dir@ + n) =~= nv.take(i as int).map_values(
                    |n: Seq<char>| dir@ + n,
                ).push(dir@ + nv[i as int]));
                i = i + 1;
            }
            assert(nv.take(names@.len() as int) =~= nv);
            out
        },
        None => Vec::new(),
    }
}

/// The next phase and step in finding the pages of the chapter at `path`.
pub fn next_pages_step(phase: PagesPhase, event: PagesEvent, path: &str) -> (r: (PagesPhase, PagesStep))
    ensures
        (phase_view(r.0), step_view(r.1)) == spec_next_pages(phase_view(phase), event_view(event), path@),
{
    match event {
        PagesEvent::Start(Some(cid)) => (PagesPhase::FirstApi, PagesStep::Api(cid)),
        PagesEvent::Start(None) => (PagesPhase::Reader, PagesStep::Reader(reader_url(path))),
        PagesEvent::ApiPages(pages) => {
            let got = match pages {
                Some(p) => p,
                None => Vec::new(),
            };
            match phase {
                PagesPhase::FirstApi => {
                    if got.len() > 0 {
                        (PagesPhase::FirstApi, PagesStep::Download(got))
                    } else {
                        (PagesPhase::Reader, PagesStep::Reader(reader_url(path)))
                    }
                },
                PagesPhase::ReaderApi(fallback) => {
                    if got.len() > 0 {
                        (PagesPhase::ReaderApi(fallback), PagesStep::Download(got))
                    } else if fallback.len() > 0 {
                        let kept = crate::text::strings_copy(&fallback);
                        (PagesPhase::ReaderApi(fallback), PagesStep::Download(kept))
                    } else {
                        (PagesPhase::ReaderApi(fallback), PagesStep::NoPages)
                    }
                },
                PagesPhase::Reader => (PagesPhase::Reader, PagesStep::NoPages),
            }
        },
        PagesEvent::ReaderPage(page) => match phase {
            PagesPhase::Reader => match page {
                None => (PagesPhase::Reader, PagesStep::NoPages),
                Some(html) => {
                    let script = script_pages(html.as_str());
                    match parse_chapter_id_from_reader_html(html.as_str()) {
                        Some(cid) => (PagesPhase::ReaderApi(script), PagesStep::Api(cid)),
                        None => {
                            if script.len() > 0 {
                                (PagesPhase::Reader, PagesStep::Download(script))
                            } else {
                                (PagesPhase::Reader, PagesStep::NoPages)
                            }
                        },
                    }
                },
            },
            other => (other, PagesStep::NoPages),
        },
    }
}

} // verus!
