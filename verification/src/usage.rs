//! The help texts the commands print.
use vstd::prelude::*;
use crate::text::string_views;
use crate::i18n::{arg_views, fill_all, rep, repf, spec_rep, Lang};

verus! {

fn push_rep(lines: &mut Vec<String>, lang: Lang, en: &str)
    ensures
        string_views(final(lines)@) == string_views(old(lines)@).push(spec_rep(lang, en@)),
{
    let s = rep(lang, en);
    lines.push(s);
    assert(string_views(lines@) =~= string_views(old(lines)@).push(s@));
}

fn push_plain(lines: &mut Vec<String>, text: &str)
    ensures
        string_views(final(lines)@) == string_views(old(lines)@).push(text@),
{
    let s = crate::text::string_of(crate::text::chars_of(text).as_slice());
    lines.push(s);
    assert(string_views(lines@) =~= string_views(old(lines)@).push(s@));
}

fn push_repf(lines: &mut Vec<String>, lang: Lang, en: &str, arg: &str)
    ensures
        string_views(final(lines)@) == string_views(old(lines)@).push(fill_all(spec_rep(lang, en@), seq![arg@])),
{
    let mut args: Vec<&str> = Vec::new();
    args.push(arg);
    let s = repf(lang, en, args.as_slice());
    assert(arg_views(args@) =~= seq![arg@]);
    lines.push(s);
    assert(string_views(lines@) =~= string_views(old(lines)@).push(s@));
}

/// The general usage text: services, their main commands, settings and examples.
pub open spec fn spec_usage(lang: Lang, config_path: Seq<char>) -> Seq<Seq<char>> {
    seq![
        spec_rep(lang, "Usage:"@),
        spec_rep(lang, "  nymphalis <service> <command> [args...]"@),
        ""@,
        spec_rep(lang, "Services:"@),
        spec_rep(lang, "  gelbooru.com  (aliases: gelbu, gel, gelbooru)"@),
        spec_rep(lang, "  desu.uno      (aliases: desu)"@),
        "  patreon.com   (aliases: patreon)"@,
        ""@,
        spec_rep(lang, "Commands (gelbooru.com):"@),
        spec_rep(lang, "  nymphalis gelbooru.com download <dir> <tag1> [tag2] ..."@),
        spec_rep(lang, "      Download all images for the given tags into <dir>."@),
        spec_rep(lang, "  nymphalis gelbooru.com search <keyword>"@),
        spec_rep(lang, "      Search for tags matching <keyword>."@),
        ""@,
        spec_rep(lang, "Commands (desu.uno):"@),
        spec_rep(lang, "  nymphalis desu.uno download <slug.id> [slug.id2] ..."@),
        spec_rep(lang, "      Download all chapters of the given manga title(s)."@),
        spec_rep(lang, "  nymphalis desu.uno search <keyword>"@),
        spec_rep(lang, "      Search for manga. Output: Human Title | slug.id"@),
        ""@,
        spec_rep(lang, "Global commands:"@),
        spec_rep(lang, "  nymphalis set <variable> <value>"@),
        fill_all(spec_rep(lang, "      Save a setting into {} . Variables: user_id, api_key, jobs."@), seq![config_path]),
        ""@,
        spec_rep(lang, "Examples:"@),
        spec_rep(lang, "  nymphalis set user_id 1955543"@),
        spec_rep(lang, "  nymphalis set api_key c76c2060...your_key..."@),
        spec_rep(lang, "  nymphalis set jobs 8"@),
        "  nymphalis set patreon_proxy socks5h://192.168.0.1:1080"@,
        spec_rep(lang, "  nymphalis gelbooru.com search aeg"@),
        spec_rep(lang, "  nymphalis gelbu download ./downloads cat blue_eyes"@),
        spec_rep(lang, "  nymphalis desu.uno search gals"@),
        spec_rep(lang, "  nymphalis desu download imaizumins-house-is-a-place-for-gals-to-gather.5467"@),
        ""@,
        "Commands (patreon.com):"@,
        "  nymphalis patreon login"@,
        "  nymphalis patreon show"@,
        "  nymphalis patreon download ./dir creator1 creator2"@,
    ]
}

/// The general usage text: services, their main commands, settings and examples.
pub fn usage_lines(lang: Lang, config_path: &str) -> (r: Vec<String>)
    ensures
        string_views(r@) == spec_usage(lang, config_path@),
{
    let mut v: Vec<String> = Vec::new();
    push_rep(&mut v, lang, "Usage:");
    push_rep(&mut v, lang, "  nymphalis <service> <command> [args...]");
    push_plain(&mut v, "");
    push_rep(&mut v, lang, "Services:");
    push_rep(&mut v, lang, "  gelbooru.com  (aliases: gelbu, gel, gelbooru)");
    push_rep(&mut v, lang, "  desu.uno      (aliases: desu)");
    push_plain(&mut v, "  patreon.com   (aliases: patreon)");
    push_plain(&mut v, "");
    push_rep(&mut v, lang, "Commands (gelbooru.com):");
    push_rep(&mut v, lang, "  nymphalis gelbooru.com download <dir> <tag1> [tag2] ...");
    push_rep(&mut v, lang, "      Download all images for the given tags into <dir>.");
    push_rep(&mut v, lang, "  nymphalis gelbooru.com search <keyword>");
    push_rep(&mut v, lang, "      Search for tags matching <keyword>.");
    push_plain(&mut v, "");
    push_rep(&mut v, lang, "Commands (desu.uno):");
    push_rep(&mut v, lang, "  nymphalis desu.uno download <slug.id> [slug.id2] ...");
    push_rep(&mut v, lang, "      Download all chapters of the given manga title(s).");
    push_rep(&mut v, lang, "  nymphalis desu.uno search <keyword>");
    push_rep(&mut v, lang, "      Search for manga. Output: Human Title | slug.id");
    push_plain(&mut v, "");
    push_rep(&mut v, lang, "Global commands:");
    push_rep(&mut v, lang, "  nymphalis set <variable> <value>");
    push_repf(&mut v, lang, "      Save a setting into {} . Variables: user_id, api_key, jobs.", config_path);
    push_plain(&mut v, "");
    push_rep(&mut v, lang, "Examples:");
    push_rep(&mut v, lang, "  nymphalis set user_id 1955543");
    push_rep(&mut v, lang, "  nymphalis set api_key c76c2060...your_key...");
    push_rep(&mut v, lang, "  nymphalis set jobs 8");
    push_plain(&mut v, "  nymphalis set patreon_proxy socks5h://192.168.0.1:1080");
    push_rep(&mut v, lang, "  nymphalis gelbooru.com search aeg");
    push_rep(&mut v, lang, "  nymphalis gelbu download ./downloads cat blue_eyes");
    push_rep(&mut v, lang, "  nymphalis desu.uno search gals");
    push_rep(&mut v, lang, "  nymphalis desu download imaizumins-house-is-a-place-for-gals-to-gather.5467");
    push_plain(&mut v, "");
    push_plain(&mut v, "Commands (patreon.com):");
    push_plain(&mut v, "  nymphalis patreon login");
    push_plain(&mut v, "  nymphalis patreon show");
    push_plain(&mut v, "  nymphalis patreon download ./dir creator1 creator2");
    assert(string_views(v@) =~= spec_usage(lang, config_path@));
    v
}

/// The desu.uno commands.
pub open spec fn spec_desu_usage(lang: Lang) -> Seq<Seq<char>> {
    seq![
        spec_rep(lang, "Commands (desu.uno):"@),
        spec_rep(lang, "  nymphalis desu.uno download [manga|ranobe] <dir> <slug.id> [slug.id2] ..."@),
        spec_rep(lang, "      Download all chapters of the given title(s) into <dir> (default: manga)."@),
        ""@,
        spec_rep(lang, "  nymphalis desu.uno search <keyword>"@),
        spec_rep(lang, "      Search for manga. Output: Human Title | slug.id"@),
        ""@,
        spec_rep(lang, "  nymphalis desu.uno login [browser]"@),
        spec_rep(lang, "      Open browser login page and save xf_session cookie automatically."@),
        spec_rep(lang, "      Supported browsers: firefox, chromium, chrome, brave, falkon."@),
    ]
}

/// The desu.uno commands.
pub fn desu_usage_lines(lang: Lang) -> (r: Vec<String>)
    ensures
        string_views(r@) == spec_desu_usage(lang),
{
    let mut v: Vec<String> = Vec::new();
    push_rep(&mut v, lang, "Commands (desu.uno):");
    push_rep(&mut v, lang, "  nymphalis desu.uno download [manga|ranobe] <dir> <slug.id> [slug.id2] ...");
    push_rep(&mut v, lang, "      Download all chapters of the given title(s) into <dir> (default: manga).");
    push_plain(&mut v, "");
    push_rep(&mut v, lang, "  nymphalis desu.uno search <keyword>");
    push_rep(&mut v, lang, "      Search for manga. Output: Human Title | slug.id");
    push_plain(&mut v, "");
    push_rep(&mut v, lang, "  nymphalis desu.uno login [browser]");
    push_rep(&mut v, lang, "      Open browser login page and save xf_session cookie automatically.");
    push_rep(&mut v, lang, "      Supported browsers: firefox, chromium, chrome, brave, falkon.");
    assert(string_views(v@) =~= spec_desu_usage(lang));
    v
}

/// The gelbooru.com commands; `config_path` is where credentials are saved.
pub open spec fn spec_gelbooru_usage(lang: Lang, config_path: Seq<char>) -> Seq<Seq<char>> {
    seq![
        spec_rep(lang, "Commands (gelbooru.com):"@),
        spec_rep(lang, "  nymphalis gelbooru.com download <dir> <tag1> [tag2] ..."@),
        spec_rep(lang, "      Download all images for the given tags into <dir>."@),
        ""@,
        spec_rep(lang, "  nymphalis gelbooru.com search <keyword>"@),
        spec_rep(lang, "      Search for tags matching <keyword>."@),
        ""@,
        spec_rep(lang, "  nymphalis gelbooru.com set user_id <value>"@),
        spec_rep(lang, "  nymphalis gelbooru.com set api_key <value>"@),
        fill_all(spec_rep(lang, "      Save Gelbooru credentials to {}."@), seq![config_path]),
    ]
}

/// The gelbooru.com commands; `config_path` is where credentials are saved.
pub fn gelbooru_usage_lines(lang: Lang, config_path: &str) -> (r: Vec<String>)
    ensures
        string_views(r@) == spec_gelbooru_usage(lang, config_path@),
{
    let mut v: Vec<String> = Vec::new();
    push_rep(&mut v, lang, "Commands (gelbooru.com):");
    push_rep(&mut v, lang, "  nymphalis gelbooru.com download <dir> <tag1> [tag2] ...");
    push_rep(&mut v, lang, "      Download all images for the given tags into <dir>.");
    push_plain(&mut v, "");
    push_rep(&mut v, lang, "  nymphalis gelbooru.com search <keyword>");
    push_rep(&mut v, lang, "      Search for tags matching <keyword>.");
    push_plain(&mut v, "");
    push_rep(&mut v, lang, "  nymphalis gelbooru.com set user_id <value>");
    push_rep(&mut v, lang, "  nymphalis gelbooru.com set api_key <value>");
    push_repf(&mut v, lang, "      Save Gelbooru credentials to {}.", config_path);
    assert(string_views(v@) =~= spec_gelbooru_usage(lang, config_path@));
    v
}

/// The warning given when no gelbooru credentials are set; `config_path` is where they are looked for.
pub open spec fn spec_missing_credentials(lang: Lang, config_path: Seq<char>) -> Seq<Seq<char>> {
    seq![
        spec_rep(lang, "Warning: GELBOORU_USER_ID / GELBOORU_API_KEY are not set"@),
        fill_all(spec_rep(lang, "(checked environment, .env, and {})."@), seq![config_path]),
        spec_rep(lang, "Gelbooru now rejects anonymous API requests with 401 Unauthorized."@),
        spec_rep(lang, "Get your credentials at gelbooru.com -> My Account -> Options ->"@),
        spec_rep(lang, "API Access Credentials, then either:"@),
        spec_rep(lang, "  nymphalis set user_id 12345"@),
        spec_rep(lang, "  nymphalis set api_key yourkey"@),
        spec_rep(lang, "or export them as environment variables."@),
        ""@,
    ]
}

/// The warning given when no gelbooru credentials are set; `config_path` is where they are looked for.
pub fn missing_credentials_lines(lang: Lang, config_path: &str) -> (r: Vec<String>)
    ensures
        string_views(r@) == spec_missing_credentials(lang, config_path@),
{
    let mut v: Vec<String> = Vec::new();
    push_rep(&mut v, lang, "Warning: GELBOORU_USER_ID / GELBOORU_API_KEY are not set");
    push_repf(&mut v, lang, "(checked environment, .env, and {}).", config_path);
    push_rep(&mut v, lang, "Gelbooru now rejects anonymous API requests with 401 Unauthorized.");
    push_rep(&mut v, lang, "Get your credentials at gelbooru.com -> My Account -> Options ->");
    push_rep(&mut v, lang, "API Access Credentials, then either:");
    push_rep(&mut v, lang, "  nymphalis set user_id 12345");
    push_rep(&mut v, lang, "  nymphalis set api_key yourkey");
    push_rep(&mut v, lang, "or export them as environment variables.");
    push_plain(&mut v, "");
    assert(string_views(v@) =~= spec_missing_credentials(lang, config_path@));
    v
}

/// The explanation given when gelbooru answers 401.
pub open spec fn spec_unauthorized_help(lang: Lang) -> Seq<Seq<char>> {
    seq![
        ""@,
        spec_rep(lang, "401 Unauthorized: Gelbooru requires API credentials for every"@),
        spec_rep(lang, "request (anonymous access was disabled in 2025). Set:"@),
        spec_rep(lang, "  GELBOORU_USER_ID  and  GELBOORU_API_KEY"@),
        spec_rep(lang, "(get them at gelbooru.com -> My Account -> Options ->"@),
        spec_rep(lang, "API Access Credentials) and try again."@),
    ]
}

/// The explanation given when gelbooru answers 401.
pub fn unauthorized_help_lines(lang: Lang) -> (r: Vec<String>)
    ensures
        string_views(r@) == spec_unauthorized_help(lang),
{
    let mut v: Vec<String> = Vec::new();
    push_plain(&mut v, "");
    push_rep(&mut v, lang, "401 Unauthorized: Gelbooru requires API credentials for every");
    push_rep(&mut v, lang, "request (anonymous access was disabled in 2025). Set:");
    push_rep(&mut v, lang, "  GELBOORU_USER_ID  and  GELBOORU_API_KEY");
    push_rep(&mut v, lang, "(get them at gelbooru.com -> My Account -> Options ->");
    push_rep(&mut v, lang, "API Access Credentials) and try again.");
    assert(string_views(v@) =~= spec_unauthorized_help(lang));
    v
}

/// The mangadex.org commands.
pub open spec fn spec_mangadex_usage(lang: Lang) -> Seq<Seq<char>> {
    seq![
        spec_rep(lang, "Commands (mangadex.org):"@),
        spec_rep(lang, "  nymphalis md search <keyword>"@),
        spec_rep(lang, "      Search manga with Russian translation available."@),
        spec_rep(lang, "  nymphalis md download <dir> <manga-uuid> [uuid2 ...]"@),
        spec_rep(lang, "      Download all Russian chapters into <dir>/<uuid>/."@),
    ]
}

/// The mangadex.org commands.
pub fn mangadex_usage_lines(lang: Lang) -> (r: Vec<String>)
    ensures
        string_views(r@) == spec_mangadex_usage(lang),
{
    let mut v: Vec<String> = Vec::new();
    push_rep(&mut v, lang, "Commands (mangadex.org):");
    push_rep(&mut v, lang, "  nymphalis md search <keyword>");
    push_rep(&mut v, lang, "      Search manga with Russian translation available.");
    push_rep(&mut v, lang, "  nymphalis md download <dir> <manga-uuid> [uuid2 ...]");
    push_rep(&mut v, lang, "      Download all Russian chapters into <dir>/<uuid>/.");
    assert(string_views(v@) =~= spec_mangadex_usage(lang));
    v
}

/// The patreon.com commands.
pub open spec fn spec_patreon_usage(lang: Lang) -> Seq<Seq<char>> {
    seq![
        spec_rep(lang, "Commands (patreon.com):"@),
        spec_rep(lang, "  nymphalis patreon login [browser]"@),
        spec_rep(lang, "      Open browser for Google login; session is read automatically."@),
        spec_rep(lang, "      browser: firefox, chromium, chrome, brave, falkon (default: system default)"@),
        spec_rep(lang, "  nymphalis patreon show"@),
        spec_rep(lang, "      List all active subscriptions."@),
        spec_rep(lang, "  nymphalis patreon download <dir> <creator1> [creator2 ...]"@),
        spec_rep(lang, "      Download all media from the given creator(s) into <dir>/<creator>/."@),
        ""@,
        spec_rep(lang, "If automatic cookie reading fails, set the session manually:"@),
        spec_rep(lang, "  nymphalis set patreon_session session_id=<value>"@),
    ]
}

/// The patreon.com commands.
pub fn patreon_usage_lines(lang: Lang) -> (r: Vec<String>)
    ensures
        string_views(r@) == spec_patreon_usage(lang),
{
    let mut v: Vec<String> = Vec::new();
    push_rep(&mut v, lang, "Commands (patreon.com):");
    push_rep(&mut v, lang, "  nymphalis patreon login [browser]");
    push_rep(&mut v, lang, "      Open browser for Google login; session is read automatically.");
    push_rep(&mut v, lang, "      browser: firefox, chromium, chrome, brave, falkon (default: system default)");
    push_rep(&mut v, lang, "  nymphalis patreon show");
    push_rep(&mut v, lang, "      List all active subscriptions.");
    push_rep(&mut v, lang, "  nymphalis patreon download <dir> <creator1> [creator2 ...]");
    push_rep(&mut v, lang, "      Download all media from the given creator(s) into <dir>/<creator>/.");
    push_plain(&mut v, "");
    push_rep(&mut v, lang, "If automatic cookie reading fails, set the session manually:");
    push_rep(&mut v, lang, "  nymphalis set patreon_session session_id=<value>");
    assert(string_views(v@) =~= spec_patreon_usage(lang));
    v
}

} // verus!
