//! Browsers whose cookie stores hold the site sessions.
use vstd::prelude::*;
use crate::text::{
    all_ascii, ascii_lowercase, chars_of, eq_chars, spec_to_lowercase, starts_with, starts_with_exec, str_to_lowercase,
    string_of, trim, trim_vec,
};

verus! {

/// How a browser stores its cookies.
#[derive(Debug, Clone, Copy, PartialEq, Eq)]
pub enum BrowserKind {
    Firefox,
    /// A Chromium-based browser, with its configuration directory name.
    Chromium(&'static str),
    Falkon,
}

/// A supported browser: its command, its macOS application name and bundle
/// identifier, and its cookie store kind.
#[derive(Debug, Clone, Copy)]
pub struct Browser {
    pub bin: &'static str,
    pub mac_app: &'static str,
    pub mac_bundle: &'static str,
    pub kind: BrowserKind,
}

/// The browser a lower-case name stands for.
pub open spec fn browser_named(name: Seq<char>) -> Option<Browser> {
    if name == "firefox"@ || name == "ff"@ {
        Some(
            Browser {
                bin: "firefox",
                mac_app: "Firefox",
                mac_bundle: "org.mozilla.firefox",
                kind: BrowserKind::Firefox,
            },
        )
    } else if name == "chromium"@ {
        Some(
            Browser {
                bin: "chromium",
                mac_app: "Chromium",
                mac_bundle: "org.chromium.Chromium",
                kind: BrowserKind::Chromium("chromium"),
            },
        )
    } else if name == "chrome"@ || name == "google-chrome"@ {
        Some(
            Browser {
                bin: "google-chrome",
                mac_app: "Google Chrome",
                mac_bundle: "com.google.Chrome",
                kind: BrowserKind::Chromium("google-chrome"),
            },
        )
    } else if name == "brave"@ || name == "brave-browser"@ {
        Some(
            Browser {
                bin: "brave-browser",
                mac_app: "Brave Browser",
                mac_bundle: "com.brave.Browser",
                kind: BrowserKind::Chromium("brave-browser"),
            },
        )
    } else if name == "falkon"@ {
        Some(
            Browser {
                bin: "falkon",
                mac_app: "Falkon",
                mac_bundle: "org.kde.falkon",
                kind: BrowserKind::Falkon,
            },
        )
    } else {
        None
    }
}

/// The browser a user named, in any case: `firefox`/`ff`, `chromium`,
/// `chrome`/`google-chrome`, `brave`/`brave-browser` or `falkon`.
pub fn resolve_browser(name: &str) -> (r: Option<Browser>)
    ensures
        r == browser_named(spec_to_lowercase(name@)),
        all_ascii(name@) ==> r == browser_named(ascii_lowercase(name@)),
{
    let lower = str_to_lowercase(name);
    let l = chars_of(lower.as_str());
    let s = l.as_slice();
    if eq_chars(s, chars_of("firefox").as_slice()) || eq_chars(s, chars_of("ff").as_slice()) {
        Some(
            Browser {
                bin: "firefox",
                mac_app: "Firefox",
                mac_bundle: "org.mozilla.firefox",
                kind: BrowserKind::Firefox,
            },
        )
    } else if eq_chars(s, chars_of("chromium").as_slice()) {
        Some(
            Browser {
                bin: "chromium",
                mac_app: "Chromium",
                mac_bundle: "org.chromium.Chromium",
                kind: BrowserKind::Chromium("chromium"),
            },
        )
    } else if eq_chars(s, chars_of("chrome").as_slice()) || eq_chars(
        s,
        chars_of("google-chrome").as_slice(),
    ) {
        Some(
            Browser {
                bin: "google-chrome",
                mac_app: "Google Chrome",
                mac_bundle: "com.google.Chrome",
                kind: BrowserKind::Chromium("google-chrome"),
            },
        )
    } else if eq_chars(s, chars_of("brave").as_slice()) || eq_chars(
        s,
        chars_of("brave-browser").as_slice(),
    ) {
        Some(
            Browser {
                bin: "brave-browser",
                mac_app: "Brave Browser",
                mac_bundle: "com.brave.Browser",
                kind: BrowserKind::Chromium("brave-browser"),
            },
        )
    } else if eq_chars(s, chars_of("falkon").as_slice()) {
        Some(
            Browser {
                bin: "falkon",
                mac_app: "Falkon",
                mac_bundle: "org.kde.falkon",
                kind: BrowserKind::Falkon,
            },
        )
    } else {
        None
    }
}

/// The macOS directory (under `Library/Application Support`) of a
/// Chromium-based browser's profiles, by its configuration name.
pub open spec fn spec_chromium_mac_dir(browser_name: Seq<char>) -> Option<Seq<Seq<char>>> {
    if browser_name == "google-chrome"@ {
        Some(seq!["Google"@, "Chrome"@])
    } else if browser_name == "chromium"@ {
        Some(seq!["Chromium"@])
    } else if browser_name == "brave-browser"@ {
        Some(seq!["BraveSoftware"@, "Brave-Browser"@])
    } else {
        None
    }
}

/// The path components, below `~/Library/Application Support`, where a
/// Chromium-based browser keeps its profiles on macOS.
pub fn chromium_mac_dir(browser_name: &str) -> (r: Option<Vec<&'static str>>)
    ensures
        match spec_chromium_mac_dir(browser_name@) {
            Some(parts) => r is Some && r->0@.map_values(|p: &'static str| p@) == parts,
            None => r is None,
        },
{
    let b = chars_of(browser_name);
    if eq_chars(b.as_slice(), chars_of("google-chrome").as_slice()) {
        let mut v: Vec<&'static str> = Vec::new();
        v.push("Google");
        v.push("Chrome");
        assert(v@.map_values(|p: &'static str| p@) =~= seq!["Google"@, "Chrome"@]);
        Some(v)
    } else if eq_chars(b.as_slice(), chars_of("chromium").as_slice()) {
        let mut v: Vec<&'static str> = Vec::new();
        v.push("Chromium");
        assert(v@.map_values(|p: &'static str| p@) =~= seq!["Chromium"@]);
        Some(v)
    } else if eq_chars(b.as_slice(), chars_of("brave-browser").as_slice()) {
        let mut v: Vec<&'static str> = Vec::new();
        v.push("BraveSoftware");
        v.push("Brave-Browser");
        assert(v@.map_values(|p: &'static str| p@) =~= seq!["BraveSoftware"@, "Brave-Browser"@]);
        Some(v)
    } else {
        None
    }
}

/// Whether a directory in a Chromium-based browser's configuration holds an
/// extra profile (its name starts with `Profile `).
pub fn is_chromium_profile_dir(name: &str) -> (b: bool)
    ensures
        b == starts_with(name@, "Profile "@),
{
    let n = chars_of(name);
    starts_with_exec(n.as_slice(), chars_of("Profile ").as_slice())
}

/// What a query of the cookie database printed: the output trimmed, when
/// anything is left.
pub open spec fn spec_query_value(output: Seq<char>) -> Option<Seq<char>> {
    if trim(output).len() == 0 {
        None
    } else {
        Some(trim(output))
    }
}

/// The value a cookie query printed, trimmed; none when only whitespace was
/// printed.
pub fn query_value(output: &str) -> (r: Option<String>)
    ensures
        match spec_query_value(output@) {
            Some(v) => r is Some && r->0@ == v,
            None => r is None,
        },
{
    let o = chars_of(output);
    let t = trim_vec(o.as_slice());
    if t.len() == 0 {
        None
    } else {
        Some(string_of(t.as_slice()))
    }
}

// ----------------------------------------------------------------------------
// Opening a page
// ----------------------------------------------------------------------------

/// The kind of system the tool runs on, as far as opening a page goes.
#[derive(Debug, Clone, Copy, PartialEq, Eq)]
pub enum Os {
    MacOs,
    Windows,
    Other,
}

/// The command that opens a page in the default browser.
pub open spec fn spec_default_open_command(os: Os) -> Seq<char> {
    match os {
        Os::MacOs => "open"@,
        Os::Windows => "start"@,
        Os::Other => "xdg-open"@,
    }
}

/// The command that opens a page in the default browser: `open` on macOS,
/// `start` on Windows, `xdg-open` elsewhere.
pub fn default_open_command(os: Os) -> (r: &'static str)
    ensures
        r@ == spec_default_open_command(os),
{
    match os {
        Os::MacOs => "open",
        Os::Windows => "start",
        Os::Other => "xdg-open",
    }
}

/// One way to open a page: a program and its arguments; whether success
/// means the program exited successfully (else that it started); whether
/// it is tried only when the program's file exists.
pub struct LaunchAttempt {
    pub program: String,
    pub args: Vec<String>,
    pub wait: bool,
    pub needs_file: bool,
}

/// A launch attempt as plain values.
pub type LaunchView = (Seq<char>, Seq<Seq<char>>, bool, bool);

/// Launch attempts as plain values.
pub open spec fn launch_views(v: Seq<LaunchAttempt>) -> Seq<LaunchView> {
    v.map_values(|a: LaunchAttempt| (a.program@, crate::text::string_views(a.args@), a.wait, a.needs_file))
}

/// The ways to open `url`, tried in order until one works:
/// - on macOS (with `open_bin` the `open` program to use): the default
///   browser through `open`; or the browser by application name, then by
///   bundle identifier (when it has one), then its command in the Homebrew
///   folders (when the file is there), then its command from the path;
/// - on Windows: `cmd /c start` with the browser (or the default one), then
///   the browser's command itself;
/// - elsewhere: the browser's command, then `xdg-open`; or `xdg-open` alone.
pub open spec fn spec_launch_attempts(os: Os, browser: Option<Browser>, url: Seq<char>, open_bin: Seq<char>) -> Seq<LaunchView> {
    match os {
        Os::MacOs => match browser {
            None => seq![(open_bin, seq![url], true, false)],
            Some(b) => {
                let by_app = seq![(open_bin, seq!["-a"@, b.mac_app@, url], true, false)];
                let by_bundle = if b.mac_bundle@.len() > 0 {
                    seq![(open_bin, seq!["-b"@, b.mac_bundle@, url], true, false)]
                } else {
                    Seq::empty()
                };
                by_app + by_bundle + seq![
                    ("/opt/homebrew/bin/"@ + b.bin@, seq![url], false, true),
                    ("/usr/local/bin/"@ + b.bin@, seq![url], false, true),
                    (b.bin@, seq![url], false, false),
                ]
            },
        },
        Os::Windows => match browser {
            None => seq![("cmd"@, seq!["/c"@, "start"@, Seq::empty(), url], false, false)],
            Some(b) => seq![
                ("cmd"@, seq!["/c"@, "start"@, b.bin@, url], false, false),
                (b.bin@, seq![url], false, false),
            ],
        },
        Os::Other => match browser {
            None => seq![("xdg-open"@, seq![url], false, false)],
            Some(b) => seq![(b.bin@, seq![url], false, false), ("xdg-open"@, seq![url], false, false)],
        },
    }
}

fn owned(s: &str) -> (r: String)
    ensures
        r@ == s@,
{
    string_of(chars_of(s).as_slice())
}

fn attempt(program: &str, args: &[&str], wait: bool, needs_file: bool) -> (a: LaunchAttempt)
    ensures
        a.program@ == program@,
        crate::text::string_views(a.args@) == args@.map_values(|x: &str| x@),
        a.wait == wait,
        a.needs_file == needs_file,
{
    let mut v: Vec<String> = Vec::new();
    let mut i: usize = 0;
    while i < args.len()
        invariant
            i <= args@.len(),
            crate::text::string_views(v@) == args@.take(i as int).map_values(|x: &str| x@),
        decreases args@.len() - i,
    {
        let ghost before = crate::text::string_views(v@);
        let s = owned(args[i]);
        v.push(s);
        assert(crate::text::string_views(v@) =~= before.push(s@));
        assert(args@.take(i + 1).map_values(|x: &str| x@) =~= args@.take(i as int).map_values(|x: &str| x@).push(args@[i as int]@));
        i = i + 1;
    }
    assert(args@.take(args@.len() as int) =~= args@);
    LaunchAttempt { program: owned(program), args: v, wait, needs_file }
}

/// The ways to open `url`, in the order they are tried.
pub fn launch_attempts(os: Os, browser: Option<Browser>, url: &str, open_bin: &str) -> (r: Vec<LaunchAttempt>)
    ensures
        launch_views(r@) == spec_launch_attempts(os, browser, url@, open_bin@),
{
    proof {
        reveal_strlit("");
    }
    let mut out: Vec<LaunchAttempt> = Vec::new();
    match os {
        Os::MacOs => match browser {
            None => {
                let a = attempt(open_bin, &[url], true, false);
                out.push(a);
                assert(launch_views(out@) =~~= seq![(open_bin@, seq![url@], true, false)]);
            },
            Some(b) => {
                let a1 = attempt(open_bin, &["-a", b.mac_app, url], true, false);
                out.push(a1);
                let ghost first = launch_views(out@);
                assert(first =~~= seq![(open_bin@, seq!["-a"@, b.mac_app@, url@], true, false)]);
                if !b.mac_bundle.is_empty() {
                    let a2 = attempt(open_bin, &["-b", b.mac_bundle, url], true, false);
                    out.push(a2);
                    assert(launch_views(out@) =~~= first + seq![(open_bin@, seq!["-b"@, b.mac_bundle@, url@], true, false)]);
                } else {
                    assert(launch_views(out@) =~~= first + Seq::<LaunchView>::empty());
                }
                let ghost head = launch_views(out@);
                let mut p1 = chars_of("/opt/homebrew/bin/");
                crate::text::push_str(&mut p1, b.bin);
                let p1s = string_of(p1.as_slice());
                let a3 = attempt(p1s.as_str(), &[url], false, true);
                out.push(a3);
                let mut p2 = chars_of("/usr/local/bin/");
                crate::text::push_str(&mut p2, b.bin);
                let p2s = string_of(p2.as_slice());
                let a4 = attempt(p2s.as_str(), &[url], false, true);
                out.push(a4);
                let a5 = attempt(b.bin, &[url], false, false);
                out.push(a5);
                assert(launch_views(out@) =~~= head + seq![
                    ("/opt/homebrew/bin/"@ + b.bin@, seq![url@], false, true),
                    ("/usr/local/bin/"@ + b.bin@, seq![url@], false, true),
                    (b.bin@, seq![url@], false, false),
                ]);
            },
        },
        Os::Windows => match browser {
            None => {
                let a = attempt("cmd", &["/c", "start", "", url], false, false);
                out.push(a);
                assert(launch_views(out@) =~~= seq![("cmd"@, seq!["/c"@, "start"@, Seq::<char>::empty(), url@], false, false)]);
            },
            Some(b) => {
                let a1 = attempt("cmd", &["/c", "start", b.bin, url], false, false);
                out.push(a1);
                let a2 = attempt(b.bin, &[url], false, false);
                out.push(a2);
                assert(launch_views(out@) =~~= seq![
                    ("cmd"@, seq!["/c"@, "start"@, b.bin@, url@], false, false),
                    (b.bin@, seq![url@], false, false),
                ]);
            },
        },
        Os::Other => match browser {
            None => {
                let a = attempt("xdg-open", &[url], false, false);
                out.push(a);
                assert(launch_views(out@) =~~= seq![("xdg-open"@, seq![url@], false, false)]);
            },
            Some(b) => {
                let a1 = attempt(b.bin, &[url], false, false);
                out.push(a1);
                let a2 = attempt("xdg-open", &[url], false, false);
                out.push(a2);
                assert(launch_views(out@) =~~= seq![(b.bin@, seq![url@], false, false), ("xdg-open"@, seq![url@], false, false)]);
            },
        },
    }
    out
}

// ----------------------------------------------------------------------------
// Where sessions are read from
// ----------------------------------------------------------------------------

/// The cookie stores a session is looked for in, in order: the given
/// browser's; with none given, Firefox, Chromium, Google Chrome, Brave and
/// Falkon.
pub open spec fn spec_session_stores(browser: Option<Browser>) -> Seq<BrowserKind> {
    match browser {
        Some(b) => seq![b.kind],
        None => seq![
            BrowserKind::Firefox,
            BrowserKind::Chromium("chromium"),
            BrowserKind::Chromium("google-chrome"),
            BrowserKind::Chromium("brave-browser"),
            BrowserKind::Falkon,
        ],
    }
}

/// The cookie stores a session is looked for in, in order.
pub fn session_stores(browser: Option<Browser>) -> (r: Vec<BrowserKind>)
    ensures
        r@ == spec_session_stores(browser),
{
    let mut v: Vec<BrowserKind> = Vec::new();
    match browser {
        Some(b) => {
            v.push(b.kind);
        },
        None => {
            v.push(BrowserKind::Firefox);
            v.push(BrowserKind::Chromium("chromium"));
            v.push(BrowserKind::Chromium("google-chrome"));
            v.push(BrowserKind::Chromium("brave-browser"));
            v.push(BrowserKind::Falkon);
        },
    }
    assert(v@ =~= spec_session_stores(browser));
    v
}

/// The name a cookie store is reported under.
pub open spec fn spec_store_name(kind: BrowserKind) -> Seq<char> {
    match kind {
        BrowserKind::Firefox => "firefox"@,
        BrowserKind::Chromium(name) => name@,
        BrowserKind::Falkon => "falkon"@,
    }
}

/// The name a cookie store is reported under.
pub fn store_name(kind: BrowserKind) -> (r: &'static str)
    ensures
        r@ == spec_store_name(kind),
{
    match kind {
        BrowserKind::Firefox => "firefox",
        BrowserKind::Chromium(name) => name,
        BrowserKind::Falkon => "falkon",
    }
}

/// The site whose session cookie is read.
#[derive(Debug, Clone, Copy, PartialEq, Eq)]
pub enum CookieSite {
    Desu,
    Patreon,
}

/// The desu.uno session query for Firefox's cookie database: every `xf_`
/// cookie of the site, as `name=value` pairs joined by `; `.
pub const DESU_FIREFOX_SQL: &'static str = "SELECT GROUP_CONCAT(name || '=' || value, '; ') \
    FROM (SELECT name, value FROM moz_cookies \
    WHERE (host = 'desu.uno' OR host = '.desu.uno') \
    AND name LIKE 'xf_%' AND length(value) > 0 \
    GROUP BY name ORDER BY lastAccessed DESC)";

/// The desu.uno session query for Chromium-style cookie databases.
pub const DESU_CHROMIUM_SQL: &'static str = "SELECT GROUP_CONCAT(name || '=' || value, '; ') \
    FROM (SELECT name, value FROM cookies \
    WHERE (host_key = 'desu.uno' OR host_key = '.desu.uno') \
    AND name LIKE 'xf_%' AND length(value) > 0 \
    GROUP BY name ORDER BY last_access_utc DESC)";

/// The Patreon session query for Firefox's cookie database: the newest
/// `session_id` value.
pub const PATREON_FIREFOX_SQL: &'static str = "SELECT value FROM moz_cookies \
    WHERE (host = 'www.patreon.com' OR host = '.patreon.com') \
    AND name = 'session_id' \
    ORDER BY lastAccessed DESC LIMIT 1";

/// The Patreon session query for Chromium-style cookie databases (Falkon's
/// included): the newest non-empty `session_id` value.
pub const PATREON_CHROMIUM_SQL: &'static str = "SELECT value FROM cookies \
    WHERE (host_key = 'www.patreon.com' OR host_key = '.patreon.com') \
    AND name = 'session_id' \
    AND length(value) > 0 \
    ORDER BY last_access_utc DESC LIMIT 1";

/// The query that reads a site's session from a cookie store.
pub open spec fn spec_cookie_query(site: CookieSite, kind: BrowserKind) -> Seq<char> {
    match (site, kind) {
        (CookieSite::Desu, BrowserKind::Firefox) => DESU_FIREFOX_SQL@,
        (CookieSite::Desu, _) => DESU_CHROMIUM_SQL@,
        (CookieSite::Patreon, BrowserKind::Firefox) => PATREON_FIREFOX_SQL@,
        (CookieSite::Patreon, _) => PATREON_CHROMIUM_SQL@,
    }
}

/// The query that reads a site's session from a cookie store.
pub fn cookie_query(site: CookieSite, kind: BrowserKind) -> (r: &'static str)
    ensures
        r@ == spec_cookie_query(site, kind),
{
    match (site, kind) {
        (CookieSite::Desu, BrowserKind::Firefox) => DESU_FIREFOX_SQL,
        (CookieSite::Desu, _) => DESU_CHROMIUM_SQL,
        (CookieSite::Patreon, BrowserKind::Firefox) => PATREON_FIREFOX_SQL,
        (CookieSite::Patreon, _) => PATREON_CHROMIUM_SQL,
    }
}

/// The file name prefix a copied cookie database gets while it is queried.
pub open spec fn spec_copy_prefix(site: CookieSite) -> Seq<char> {
    match site {
        CookieSite::Desu => "booru_desu_cookie"@,
        CookieSite::Patreon => "booru_patreon_cookie"@,
    }
}

/// The file name prefix a copied cookie database gets while it is queried.
pub fn copy_prefix(site: CookieSite) -> (r: &'static str)
    ensures
        r@ == spec_copy_prefix(site),
{
    match site {
        CookieSite::Desu => "booru_desu_cookie",
        CookieSite::Patreon => "booru_patreon_cookie",
    }
}

} // verus!
