//! What checking for a newer release reports, and what it then fetches.
use std::cmp::Ordering;
use vstd::prelude::*;
use crate::text::{chars_of, eq_chars, push_str, string_of, trim, trim_vec};
use crate::i18n::{arg_views, fill_all, rep, repf, spec_rep, Lang};
use crate::version::{
    compare_versions, find_platform_asset, platform_asset_index, version_order, GithubRelease,
};

verus! {

/// Whether the arguments ask for the new release to be downloaded
/// (`--download` or `-d`).
pub open spec fn spec_wants_download(args: Seq<Seq<char>>) -> bool {
    exists|i: int| 0 <= i < args.len() && (args[i] == "--download"@ || args[i] == "-d"@)
}

/// Whether the arguments ask for the new release to be downloaded.
pub fn wants_download(args: &[String]) -> (b: bool)
    ensures
        b == spec_wants_download(args@.map_values(|s: String| s@)),
{
    let ghost av = args@.map_values(|s: String| s@);
    let long = chars_of("--download");
    let short = chars_of("-d");
    let mut i: usize = 0;
    while i < args.len()
        invariant
            i <= args@.len(),
            av == args@.map_values(|s: String| s@),
            long@ == "--download"@,
            short@ == "-d"@,
            forall|j: int| 0 <= j < i ==> !(av[j] == "--download"@ || av[j] == "-d"@),
        decreases args@.len() - i,
    {
        let a = chars_of(args[i].as_str());
        if eq_chars(a.as_slice(), long.as_slice()) || eq_chars(a.as_slice(), short.as_slice()) {
            assert(av[i as int] == args@[i as int]@);
            return true;
        }
        i = i + 1;
    }
    false
}

/// A line to print: on standard error when the flag is set, else on
/// standard output.
pub type Line = (bool, Seq<char>);

/// `label: text`, the label translated.
pub open spec fn labelled(lang: Lang, label: Seq<char>, sep: Seq<char>, text: Seq<char>) -> Seq<char> {
    spec_rep(lang, label) + seq![':'] + sep + text
}

/// What looking for updates reports, for the running `version` on `platform`, given
/// the latest release and whether a download was asked for; and the asset
/// to download, if any:
/// - an equal version: that it is the latest;
/// - a newer version: that it is newer than the release;
/// - an older version: that a new one is out, the release's name (when it
///   has one other than its tag), the platform's download link (when there
///   is an asset for it), the release page, the changelog (when there is
///   one); and, when asked, the asset to download, or an error that there
///   is none.
pub open spec fn spec_update_plan(lang: Lang, version: Seq<char>, platform: Seq<char>, release: GithubRelease, download: bool) -> (Seq<Line>, Option<int>) {
    let latest = trim(release.tag_name@);
    let asset = platform_asset_index(release.assets@, platform);
    match version_order(version, latest) {
        Ordering::Equal => (
            seq![(false, fill_all(spec_rep(lang, "You are using the latest version: {} ({})"@), seq![version, platform]))],
            None,
        ),
        Ordering::Greater => (
            seq![(false, fill_all(spec_rep(lang, "Current version ({} {}) is newer than the latest release ({})."@), seq![version, platform, latest]))],
            None,
        ),
        Ordering::Less => {
            let head = seq![(false, fill_all(spec_rep(lang, "A new version is available: {} (current: {} {})"@), seq![latest, version, platform]))];
            let name_line = match release.name {
                Some(n) => if trim(n@).len() > 0 && trim(n@) != latest {
                    seq![(false, labelled(lang, "Release"@, seq![' '], trim(n@)))]
                } else {
                    Seq::empty()
                },
                None => Seq::empty(),
            };
            let link = match asset {
                Some(i) => seq![(false, Seq::empty()), (false, fill_all(spec_rep(lang, "Direct download link for your platform ({}):\n  {}"@), seq![platform, release.assets@[i].browser_download_url@]))],
                None => Seq::empty(),
            };
            let page = seq![(false, Seq::empty()), (false, labelled(lang, "Release page"@, seq![' '], release.html_url@))];
            let log = match release.body {
                Some(b) => if trim(b@).len() > 0 {
                    seq![(false, Seq::empty()), (false, labelled(lang, "Changelog"@, seq!['\n'], trim(b@)))]
                } else {
                    Seq::empty()
                },
                None => Seq::empty(),
            };
            let missing = if download && asset is None {
                seq![(true, fill_all(spec_rep(lang, "No compatible asset found for platform {}"@), seq![platform]))]
            } else {
                Seq::empty()
            };
            (head + name_line + link + page + log + missing, if download {
                asset
            } else {
                None
            })
        },
    }
}

/// What looking for updates reports, and the asset to download (its name and
/// address), if any.
pub struct UpdatePlan {
    pub lines: Vec<(bool, String)>,
    pub download: Option<(String, String)>,
}

/// Lines as plain values.
pub open spec fn line_views(v: Seq<(bool, String)>) -> Seq<Line> {
    v.map_values(|l: (bool, String)| (l.0, l.1@))
}

fn labelled_exec(lang: Lang, label: &str, sep: char, text: &[char]) -> (r: String)
    ensures
        r@ == labelled(lang, label@, seq![sep], text@),
{
    let l = rep(lang, label);
    let mut v = chars_of(l.as_str());
    v.push(':');
    v.push(sep);
    crate::text::push_all(&mut v, text);
    string_of(v.as_slice())
}

fn push_line(lines: &mut Vec<(bool, String)>, err: bool, s: String)
    ensures
        line_views(final(lines)@) == line_views(old(lines)@).push((err, s@)),
{
    lines.push((err, s));
    assert(line_views(lines@) =~= line_views(old(lines)@).push((err, s@)));
}

/// What checking for updates reports for the running `version` on
/// `platform`, given the latest release and whether a download was asked
/// for.
pub fn update_plan(lang: Lang, version: &str, platform: &str, release: &GithubRelease, download: bool) -> (r: UpdatePlan)
    ensures
        line_views(r.lines@) == spec_update_plan(lang, version@, platform@, *release, download).0,
        match spec_update_plan(lang, version@, platform@, *release, download).1 {
            Some(i) => r.download matches Some(d) && d.0@ == release.assets@[i].name@
                && d.1@ == release.assets@[i].browser_download_url@,
            None => r.download is None,
        },
{
    let tag = chars_of(release.tag_name.as_str());
    let latest_v = trim_vec(tag.as_slice());
    let latest = string_of(latest_v.as_slice());
    let mut lines: Vec<(bool, String)> = Vec::new();
    let ord = compare_versions(version, latest.as_str());
    match ord {
        Ordering::Equal => {
            let mut args: Vec<&str> = Vec::new();
            args.push(version);
            args.push(platform);
            let m = repf(lang, "You are using the latest version: {} ({})", args.as_slice());
            assert(arg_views(args@) =~= seq![version@, platform@]);
            push_line(&mut lines, false, m);
            assert(line_views(lines@) =~= spec_update_plan(lang, version@, platform@, *release, download).0);
            UpdatePlan { lines, download: None }
        },
        Ordering::Greater => {
            let mut args: Vec<&str> = Vec::new();
            args.push(version);
            args.push(platform);
            args.push(latest.as_str());
            let m = repf(lang, "Current version ({} {}) is newer than the latest release ({}).", args.as_slice());
            assert(arg_views(args@) =~= seq![version@, platform@, latest@]);
            push_line(&mut lines, false, m);
            assert(line_views(lines@) =~= spec_update_plan(lang, version@, platform@, *release, download).0);
            UpdatePlan { lines, download: None }
        },
        Ordering::Less => {
            let ghost spec_asset = platform_asset_index(release.assets@, platform@);
            let mut args: Vec<&str> = Vec::new();
            args.push(latest.as_str());
            args.push(version);
            args.push(platform);
            let m = repf(lang, "A new version is available: {} (current: {} {})", args.as_slice());
            assert(arg_views(args@) =~= seq![latest@, version@, platform@]);
            push_line(&mut lines, false, m);
            let ghost after_head = line_views(lines@);
            match &release.name {
                Some(n) => {
                    let nv = chars_of(n.as_str());
                    let nt = trim_vec(nv.as_slice());
                    if nt.len() > 0 && !eq_chars(nt.as_slice(), latest_v.as_slice()) {
                        let l = labelled_exec(lang, "Release", ' ', nt.as_slice());
                        push_line(&mut lines, false, l);
                    }
                },
                None => {},
            }
            let ghost after_name = line_views(lines@);
            let asset = find_platform_asset(release.assets.as_slice(), platform);
            match asset {
                Some(a) => {
                    push_line(&mut lines, false, String::new());
                    let mut args2: Vec<&str> = Vec::new();
                    args2.push(platform);
                    args2.push(a.browser_download_url.as_str());
                    let m2 = repf(lang, "Direct download link for your platform ({}):\n  {}", args2.as_slice());
                    assert(arg_views(args2@) =~= seq![platform@, a.browser_download_url@]);
                    push_line(&mut lines, false, m2);
                },
                None => {},
            }
            let ghost after_link = line_views(lines@);
            push_line(&mut lines, false, String::new());
            let url = chars_of(release.html_url.as_str());
            let pl = labelled_exec(lang, "Release page", ' ', url.as_slice());
            push_line(&mut lines, false, pl);
            let ghost after_page = line_views(lines@);
            match &release.body {
                Some(b) => {
                    let bv = chars_of(b.as_str());
                    let bt = trim_vec(bv.as_slice());
                    if bt.len() > 0 {
                        push_line(&mut lines, false, String::new());
                        let cl = labelled_exec(lang, "Changelog", '\n', bt.as_slice());
                        push_line(&mut lines, false, cl);
                    }
                },
                None => {},
            }
            let ghost after_log = line_views(lines@);
            let mut chosen: Option<(String, String)> = None;
            if download {
                match asset {
                    Some(a) => {
                        chosen = Some((a.name.clone(), a.browser_download_url.clone()));
                    },
                    None => {
                        let mut args3: Vec<&str> = Vec::new();
                        args3.push(platform);
                        let m3 = repf(lang, "No compatible asset found for platform {}", args3.as_slice());
                        assert(arg_views(args3@) =~= seq![platform@]);
                        push_line(&mut lines, true, m3);
                    },
                }
            }
            assert(line_views(lines@) =~= spec_update_plan(lang, version@, platform@, *release, download).0);
            UpdatePlan { lines, download: chosen }
        },
    }
}

} // verus!
