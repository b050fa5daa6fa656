//! Reading the command line: which service or global command is asked for,
//! which of a service's commands, and the arguments of a download.
use vstd::prelude::*;
use crate::text::{chars_of, eq_chars, push_str, spec_to_lowercase, string_of, string_views};
use crate::service::{resolve_service, service_named};
use crate::i18n::{rep, spec_rep, Lang};
use crate::ranobe::join;
use crate::desu::{parse_slug_id, spec_parse_slug_id};

verus! {

/// What the whole command line asks for.
#[derive(Debug)]
pub enum Route {
    /// No arguments: print the usage and fail.
    Usage,
    /// `set <variable> <value>`.
    SetVariable,
    /// `add-shell-completions`.
    Completions,
    /// `-h` or `--help`.
    Help,
    /// The first argument names no service.
    UnknownService(String),
    /// A service without a command.
    MissingCommand(&'static str),
    /// A service's command (from the third argument on).
    Service(&'static str),
}

/// A route as plain values.
pub enum RouteView {
    Usage,
    SetVariable,
    Completions,
    Help,
    UnknownService(Seq<char>),
    MissingCommand(Seq<char>),
    Service(Seq<char>),
}

/// A route as plain values.
pub open spec fn route_view(r: Route) -> RouteView {
    match r {
        Route::Usage => RouteView::Usage,
        Route::SetVariable => RouteView::SetVariable,
        Route::Completions => RouteView::Completions,
        Route::Help => RouteView::Help,
        Route::UnknownService(n) => RouteView::UnknownService(n@),
        Route::MissingCommand(s) => RouteView::MissingCommand(s@),
        Route::Service(s) => RouteView::Service(s@),
    }
}

/// What the command line (program name first) asks for: with no argument,
/// the usage; the global commands `set`, `add-shell-completions`, `-h` and
/// `--help`; else a service by name or alias (in any case), which needs a
/// command after it.
pub open spec fn spec_route(args: Seq<Seq<char>>) -> RouteView {
    if args.len() < 2 {
        RouteView::Usage
    } else if args[1] == "set"@ {
        RouteView::SetVariable
    } else if args[1] == "add-shell-completions"@ {
        RouteView::Completions
    } else if args[1] == "-h"@ || args[1] == "--help"@ {
        RouteView::Help
    } else {
        match service_named(spec_to_lowercase(args[1])) {
            None => RouteView::UnknownService(args[1]),
            Some(s) => if args.len() < 3 {
                RouteView::MissingCommand(s@)
            } else {
                RouteView::Service(s@)
            },
        }
    }
}

/// What the command line asks for.
pub fn route(args: &[String]) -> (r: Route)
    ensures
        route_view(r) == spec_route(args@.map_values(|s: String| s@)),
{
    let ghost av = args@.map_values(|s: String| s@);
    if args.len() < 2 {
        return Route::Usage;
    }
    assert(av[1] == args@[1]@);
    let a = chars_of(args[1].as_str());
    if eq_chars(a.as_slice(), chars_of("set").as_slice()) {
        Route::SetVariable
    } else if eq_chars(a.as_slice(), chars_of("add-shell-completions").as_slice()) {
        Route::Completions
    } else if eq_chars(a.as_slice(), chars_of("-h").as_slice()) || eq_chars(a.as_slice(), chars_of("--help").as_slice()) {
        Route::Help
    } else {
        match resolve_service(args[1].as_str()) {
            None => Route::UnknownService(args[1].clone()),
            Some(s) => {
                if args.len() < 3 {
                    Route::MissingCommand(s)
                } else {
                    Route::Service(s)
                }
            },
        }
    }
}

/// Which of a service's commands its arguments ask for.
#[derive(Debug, PartialEq, Eq)]
pub enum Pick {
    /// No arguments.
    Empty,
    /// Command `i` of the service's list.
    Command(usize),
    /// `-h` or `--help`.
    Help,
    /// Something else.
    Unknown,
}

/// Which of `commands` the first argument names (the first that matches),
/// else help, else unknown; nothing when there is no argument.
pub open spec fn spec_pick(rest: Seq<Seq<char>>, commands: Seq<Seq<char>>) -> Pick {
    if rest.len() == 0 {
        Pick::Empty
    } else if exists|i: int| 0 <= i < commands.len() && commands[i] == rest[0] {
        Pick::Command(
            (choose|i: int| 0 <= i < commands.len() && commands[i] == rest[0] && forall|j: int|
                0 <= j < i ==> commands[j] != rest[0]) as usize,
        )
    } else if rest[0] == "-h"@ || rest[0] == "--help"@ {
        Pick::Help
    } else {
        Pick::Unknown
    }
}

/// Which of a service's `commands` its arguments ask for.
pub fn pick_command(rest: &[String], commands: &[&str]) -> (p: Pick)
    ensures
        p == spec_pick(rest@.map_values(|s: String| s@), commands@.map_values(|c: &str| c@)),
{
    let ghost rv = rest@.map_values(|s: String| s@);
    let ghost cv = commands@.map_values(|c: &str| c@);
    if rest.len() == 0 {
        return Pick::Empty;
    }
    assert(rv[0] == rest@[0]@);
    let first = chars_of(rest[0].as_str());
    let mut i: usize = 0;
    while i < commands.len()
        invariant
            i <= commands@.len(),
            cv == commands@.map_values(|c: &str| c@),
            rv == rest@.map_values(|s: String| s@),
            rest@.len() > 0,
            first@ == rv[0],
            forall|j: int| 0 <= j < i ==> cv[j] != rv[0],
        decreases commands@.len() - i,
    {
        if eq_chars(first.as_slice(), chars_of(commands[i]).as_slice()) {
            assert(cv[i as int] == rv[0]);
            assert(forall|j: int| 0 <= j < i ==> cv[j] != rv[0]);
            assert(exists|k: int| 0 <= k < cv.len() && cv[k] == rv[0] && forall|j: int|
                0 <= j < k ==> cv[j] != rv[0]) by {
                assert(0 <= i < cv.len() && cv[i as int] == rv[0] && forall|j: int|
                    0 <= j < i ==> cv[j] != rv[0]);
            }
            let ghost k = choose|k: int| 0 <= k < cv.len() && cv[k] == rv[0] && forall|j: int|
                0 <= j < k ==> cv[j] != rv[0];
            assert(k == i) by {
                if k < i {
                    assert(cv[k] != rv[0]);
                } else if k > i {
                    assert(cv[i as int] != rv[0]);
                }
            }
            return Pick::Command(i);
        }
        i = i + 1;
    }
    if eq_chars(first.as_slice(), chars_of("-h").as_slice()) || eq_chars(first.as_slice(), chars_of("--help").as_slice()) {
        Pick::Help
    } else {
        Pick::Unknown
    }
}

// ----------------------------------------------------------------------------
// Download arguments
// ----------------------------------------------------------------------------

/// What a desu.uno download fetches.
#[derive(Debug, Clone, Copy, PartialEq, Eq)]
pub enum DownloadKind {
    Manga,
    Ranobe,
}

/// A desu.uno download: what kind, into which folder, which titles.
pub struct DesuDownload {
    pub kind: DownloadKind,
    pub out_dir: String,
    pub titles: Vec<String>,
}

/// The kind a download asks for (`ranobe` or `manga` first; manga when
/// neither) and the arguments after it.
pub open spec fn download_kind(rest: Seq<Seq<char>>) -> (DownloadKind, Seq<Seq<char>>) {
    if rest.len() > 0 && rest[0] == "ranobe"@ {
        (DownloadKind::Ranobe, rest.drop_first())
    } else if rest.len() > 0 && rest[0] == "manga"@ {
        (DownloadKind::Manga, rest.drop_first())
    } else {
        (DownloadKind::Manga, rest)
    }
}

/// A desu.uno download's arguments: an optional kind, then either titles
/// alone (the first reads as a `slug.id` or an id), saved into the working
/// directory `.`, or a folder followed by at least one title; else the
/// message for the missing arguments.
pub open spec fn spec_desu_download(rest: Seq<Seq<char>>, lang: Lang) -> Result<(DownloadKind, Seq<char>, Seq<Seq<char>>), Seq<char>> {
    let (kind, args) = download_kind(rest);
    if args.len() > 0 && spec_parse_slug_id(args[0]) is Some {
        Ok((kind, "."@, args))
    } else if args.len() < 2 {
        Err(match kind {
            DownloadKind::Ranobe => spec_rep(lang, "download ranobe requires an output directory and at least one title.\n"@),
            DownloadKind::Manga => spec_rep(lang, "download requires at least one manga title.\n"@),
        })
    } else {
        Ok((kind, args[0], args.drop_first()))
    }
}

/// Copies of the arguments from `from` on.
pub fn strings_from(rest: &[String], from: usize) -> (v: Vec<String>)
    requires
        from <= rest@.len(),
    ensures
        string_views(v@) == rest@.map_values(|s: String| s@).subrange(from as int, rest@.len() as int),
{
    let ghost rv = rest@.map_values(|s: String| s@);
    let mut v: Vec<String> = Vec::new();
    let mut i = from;
    while i < rest.len()
        invariant
            from <= i <= rest@.len(),
            rv == rest@.map_values(|s: String| s@),
            string_views(v@) == rv.subrange(from as int, i as int),
        decreases rest@.len() - i,
    {
        let ghost before = string_views(v@);
        let t = rest[i].clone();
        v.push(t);
        assert(string_views(v@) =~= before.push(t@));
        assert(rv.subrange(from as int, i + 1) =~= rv.subrange(from as int, i as int).push(rv[i as int]));
        i = i + 1;
    }
    v
}

/// A desu.uno download's arguments, or the message for missing ones.
pub fn desu_download_args(rest: &[String], lang: Lang) -> (r: Result<DesuDownload, String>)
    ensures
        match spec_desu_download(rest@.map_values(|s: String| s@), lang) {
            Ok((k, d, ts)) => r matches Ok(x) && x.kind == k && x.out_dir@ == d && string_views(x.titles@) == ts,
            Err(m) => r matches Err(e) && e@ == m,
        },
{
    let ghost rv = rest@.map_values(|s: String| s@);
    let mut start: usize = 0;
    let mut kind = DownloadKind::Manga;
    if rest.len() > 0 {
        assert(rv[0] == rest@[0]@);
        let first = chars_of(rest[0].as_str());
        if eq_chars(first.as_slice(), chars_of("ranobe").as_slice()) {
            kind = DownloadKind::Ranobe;
            start = 1;
        } else if eq_chars(first.as_slice(), chars_of("manga").as_slice()) {
            start = 1;
        }
    }
    let ghost args = download_kind(rv).1;
    assert(args =~= rv.skip(start as int));
    assert(kind == download_kind(rv).0);
    if start < rest.len() {
        assert(args[0] == rest@[start as int]@);
        if parse_slug_id(rest[start].as_str()).is_some() {
            let titles = strings_from(rest, start);
            assert(args =~= rv.subrange(start as int, rest@.len() as int));
            let out_dir = string_of(chars_of(".").as_slice());
            return Ok(DesuDownload { kind, out_dir, titles });
        }
    }
    if rest.len() - start < 2 {
        return Err(match kind {
            DownloadKind::Ranobe => rep(lang, "download ranobe requires an output directory and at least one title.\n"),
            DownloadKind::Manga => rep(lang, "download requires at least one manga title.\n"),
        });
    }
    let out_dir = rest[start].clone();
    assert(args[0] == rest@[start as int]@);
    let titles = strings_from(rest, start + 1);
    assert(args.drop_first() =~= rv.subrange(start + 1, rest@.len() as int));
    Ok(DesuDownload { kind, out_dir, titles })
}

/// Tags (or words) joined by single spaces, as one query.
pub fn join_words(words: &[String]) -> (r: String)
    ensures
        r@ == join(words@.map_values(|s: String| s@), seq![' ']),
{
    let ghost wv = words@.map_values(|s: String| s@);
    let mut v: Vec<char> = Vec::new();
    let mut i: usize = 0;
    while i < words.len()
        invariant
            i <= words@.len(),
            wv == words@.map_values(|s: String| s@),
            v@ == join(wv.take(i as int), seq![' ']),
        decreases words@.len() - i,
    {
        assert(wv.take(i + 1).drop_last() =~= wv.take(i as int));
        assert(wv.take(i + 1).last() == words@[i as int]@);
        if i > 0 {
            v.push(' ');
        } else {
            assert(wv.take(1) =~= seq![wv[0]]);
        }
        push_str(&mut v, words[i].as_str());
        i = i + 1;
    }
    assert(wv.take(words@.len() as int) =~= wv);
    string_of(v.as_slice())
}

/// The line a desu.uno search result is listed on: its name (`Russian /
/// English`, or the English name alone when there is no Russian one) padded
/// to 55 characters, a space, its `slug.id`.
pub open spec fn spec_search_line(slug_id: Seq<char>, en: Seq<char>, ru: Seq<char>) -> Seq<char> {
    let name = if ru.len() == 0 {
        en
    } else {
        ru + " / "@ + en
    };
    pad_right(name, 55) + seq![' '] + slug_id
}

/// `s` followed by spaces up to `width` characters (as `{:<width}`).
pub open spec fn pad_right(s: Seq<char>, width: nat) -> Seq<char> {
    if s.len() >= width {
        s
    } else {
        s + Seq::new((width - s.len()) as nat, |i: int| ' ')
    }
}

/// `s` padded with spaces to `width` characters.
pub fn pad_right_vec(s: &[char], width: usize) -> (v: Vec<char>)
    ensures
        v@ == pad_right(s@, width as nat),
{
    let mut v = crate::text::copy_vec(s);
    if s.len() >= width {
        return v;
    }
    let ghost s0 = v@;
    let mut k: usize = s.len();
    while k < width
        invariant
            s@.len() <= k <= width,
            s0 == s@,
            v@ == s0 + Seq::new((k - s@.len()) as nat, |i: int| ' '),
        decreases width - k,
    {
        v.push(' ');
        k = k + 1;
        assert(v@ =~= s0 + Seq::new((k - s@.len()) as nat, |i: int| ' '));
    }
    v
}

/// The line a desu.uno search result is listed on.
pub fn search_line(slug_id: &str, en: &str, ru: &str) -> (r: String)
    ensures
        r@ == spec_search_line(slug_id@, en@, ru@),
{
    let name = if ru.is_empty() {
        chars_of(en)
    } else {
        let mut n = chars_of(ru);
        push_str(&mut n, " / ");
        push_str(&mut n, en);
        n
    };
    let mut v = pad_right_vec(name.as_slice(), 55);
    v.push(' ');
    push_str(&mut v, slug_id);
    string_of(v.as_slice())
}

} // verus!
