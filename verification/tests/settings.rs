use nymphalis::commands::{desu_download_args, join_words, pick_command, route, search_line, DownloadKind, Pick, Route};
use nymphalis::config::{apply_setting, parallel_jobs, Config, SetError};
use nymphalis::http::{choose_proxy, effective_proxy, ext_or_jpg, page_file_for_url, page_file_name, unique_dest, user_agent};
use nymphalis::i18n::{lang_from_env, rep, repf, Lang};
use nymphalis::service::resolve_service;
use nymphalis::shell::completion_targets;
use nymphalis::usage::{desu_usage_lines, usage_lines};
use nymphalis::gelbooru::get_credentials;
use nymphalis::cli::{already_saved, pages_detail, take_chars, tally};

fn strings(v: &[&str]) -> Vec<String> {
    v.iter().map(|s| s.to_string()).collect()
}

#[test]
fn set_jobs_then_read_back() {
    let mut c = Config::default();
    assert_eq!(parallel_jobs(None, &c), 4);
    let r = apply_setting(&mut c, &strings(&["JOBS", "8"]));
    assert_eq!(r.unwrap(), "jobs");
    assert_eq!(c.jobs, Some(8));
    assert_eq!(parallel_jobs(None, &c), 8);
    assert_eq!(parallel_jobs(Some("3"), &c), 3);
    assert_eq!(parallel_jobs(Some("0"), &c), 8);
}

#[test]
fn set_rejections_leave_settings_alone() {
    let mut c = Config::default();
    assert!(matches!(apply_setting(&mut c, &strings(&["jobs"])), Err(SetError::Usage)));
    assert!(matches!(apply_setting(&mut c, &strings(&["jobs", "0"])), Err(SetError::InvalidJobs)));
    assert!(matches!(apply_setting(&mut c, &strings(&["jobs", "lots"])), Err(SetError::InvalidJobs)));
    match apply_setting(&mut c, &strings(&["Colour", "red"])) {
        Err(SetError::UnknownVariable(k)) => assert_eq!(k, "colour"),
        other => panic!("unexpected {:?}", other),
    }
    assert!(c.jobs.is_none() && c.user_id.is_none());
}

#[test]
fn saved_credentials_are_used_unless_environment_has_them() {
    let mut c = Config::default();
    apply_setting(&mut c, &strings(&["user_id", "1955543"])).unwrap();
    apply_setting(&mut c, &strings(&["api_key", "k"])).unwrap();
    let creds = get_credentials(None, None, &c).unwrap();
    assert_eq!(creds.user_id, "1955543");
    assert_eq!(creds.api_key, "k");
    let from_env = get_credentials(Some("7"), Some(""), &c).unwrap();
    assert_eq!(from_env.user_id, "7");
    assert_eq!(from_env.api_key, "k");
    assert!(get_credentials(None, None, &Config::default()).is_none());
}

#[test]
fn proxies() {
    assert_eq!(effective_proxy("socks5://h:1080"), "socks5h://h:1080");
    assert_eq!(effective_proxy(&effective_proxy("socks5://h:1080")), "socks5h://h:1080");
    assert_eq!(effective_proxy("http://h"), "http://h");
    assert_eq!(choose_proxy(Some(String::new()), Some("p".to_string())), Some("p".to_string()));
    assert_eq!(choose_proxy(Some("e".to_string()), Some("p".to_string())), Some("e".to_string()));
    assert_eq!(choose_proxy(None, Some(String::new())), None);
}

#[test]
fn file_names() {
    assert_eq!(ext_or_jpg("https://x/a/b.png"), "png");
    assert_eq!(ext_or_jpg("https://x/a/b"), "jpg");
    assert_eq!(ext_or_jpg("https://x.y/a/b"), "jpg");
    assert_eq!(ext_or_jpg("f.toolong"), "jpg");
    assert_eq!(page_file_name(7, "png"), "0007.png");
    assert_eq!(page_file_name(12345, "jpg"), "12345.jpg");
    assert_eq!(page_file_for_url(3, "https://img.desu.uno/a/b.webp?t=1.2"), "0003.webp");
    assert_eq!(page_file_for_url(1, "https://img.desu.uno/a/b"), "0001.jpg");
    assert_eq!(unique_dest("a.jpg", false), None);
    assert_eq!(unique_dest("a.jpg", true), Some("_a.jpg".to_string()));
    assert_eq!(unique_dest("_a.jpg", true), Some("__a.jpg".to_string()));
    assert_eq!(user_agent("1.0"), "nymphalis/1.0 (+https://github.com/BlucherSKK/nymphalis)");
}

#[test]
fn messages_in_both_languages() {
    assert_eq!(rep(Lang::En, "Usage:"), "Usage:");
    assert_eq!(rep(Lang::Ru, "Usage:"), "Использование:");
    assert_eq!(rep(Lang::Ru, "no such text"), "no such text");
    assert_eq!(repf(Lang::En, "HTTP {}", &["404"]), "HTTP 404");
    assert_eq!(repf(Lang::En, "{} and {}", &["a"]), "a and {}");
    assert!(matches!(lang_from_env(&[None, Some("ru_RU.UTF-8".to_string())]), Lang::Ru));
    assert!(matches!(lang_from_env(&[Some("en_US".to_string())]), Lang::En));
    assert!(matches!(lang_from_env(&[Some("RU".to_string())]), Lang::Ru));
}

#[test]
fn services_by_alias_in_any_case() {
    assert_eq!(resolve_service("GeL"), Some("gelbooru.com"));
    assert_eq!(resolve_service("gelbu"), Some("gelbooru.com"));
    assert_eq!(resolve_service("desu"), Some("desu.uno"));
    assert_eq!(resolve_service("MDEX"), Some("mangadex.org"));
    assert_eq!(resolve_service("patreon"), Some("patreon.com"));
    assert_eq!(resolve_service("imgur"), None);
}

#[test]
fn command_line_routes() {
    assert!(matches!(route(&strings(&["nymphalis"])), Route::Usage));
    assert!(matches!(route(&strings(&["nymphalis", "set", "jobs", "2"])), Route::SetVariable));
    assert!(matches!(route(&strings(&["nymphalis", "--help"])), Route::Help));
    assert!(matches!(route(&strings(&["nymphalis", "add-shell-completions"])), Route::Completions));
    assert!(matches!(route(&strings(&["nymphalis", "Desu"])), Route::MissingCommand("desu.uno")));
    assert!(matches!(route(&strings(&["nymphalis", "md", "search"])), Route::Service("mangadex.org")));
    match route(&strings(&["nymphalis", "nope", "x"])) {
        Route::UnknownService(n) => assert_eq!(n, "nope"),
        other => panic!("unexpected {:?}", other),
    }
}

#[test]
fn service_commands() {
    let cmds = ["download", "search", "login"];
    assert_eq!(pick_command(&[], &cmds), Pick::Empty);
    assert_eq!(pick_command(&strings(&["search", "x"]), &cmds), Pick::Command(1));
    assert_eq!(pick_command(&strings(&["-h"]), &cmds), Pick::Help);
    assert_eq!(pick_command(&strings(&["fly"]), &cmds), Pick::Unknown);
}

#[test]
fn desu_download_arguments() {
    let d = desu_download_args(&strings(&["ranobe", "out", "a.1", "b.2"]), Lang::En).ok().unwrap();
    assert_eq!(d.kind, DownloadKind::Ranobe);
    assert_eq!(d.out_dir, "out");
    assert_eq!(d.titles, strings(&["a.1", "b.2"]));
    let m = desu_download_args(&strings(&["out", "a.1"]), Lang::En).ok().unwrap();
    assert_eq!(m.kind, DownloadKind::Manga);
    match desu_download_args(&strings(&["ranobe", "out"]), Lang::En) {
        Err(e) => assert_eq!(e, "download ranobe requires an output directory and at least one title.\n"),
        Ok(_) => panic!("accepted"),
    }
    let one = desu_download_args(&strings(&["imaizumins-house-is-a-place-for-gals-to-gather.5467"]), Lang::En)
        .ok()
        .unwrap();
    assert_eq!(one.kind, DownloadKind::Manga);
    assert_eq!(one.out_dir, ".");
    assert_eq!(one.titles, strings(&["imaizumins-house-is-a-place-for-gals-to-gather.5467"]));
    let two = desu_download_args(&strings(&["ranobe", "a.1", "5467"]), Lang::En).ok().unwrap();
    assert_eq!(two.kind, DownloadKind::Ranobe);
    assert_eq!(two.out_dir, ".");
    assert_eq!(two.titles, strings(&["a.1", "5467"]));
    match desu_download_args(&strings(&["out"]), Lang::En) {
        Err(e) => assert_eq!(e, "download requires at least one manga title.\n"),
        Ok(_) => panic!("accepted"),
    }
    match desu_download_args(&strings(&["manga"]), Lang::En) {
        Err(e) => assert_eq!(e, "download requires at least one manga title.\n"),
        Ok(_) => panic!("accepted"),
    }
}

#[test]
fn words_and_lines() {
    assert_eq!(join_words(&strings(&["cat", "blue_eyes"])), "cat blue_eyes");
    assert_eq!(join_words(&[]), "");
    let line = search_line("t.1", "Title", "Титул");
    assert_eq!(line.chars().count(), 55 + 1 + 3);
    assert!(line.starts_with("Титул / Title "));
    assert!(line.ends_with(" t.1"));
    assert_eq!(search_line("t.1", "T", ""), format!("T{} t.1", " ".repeat(54)));
    assert_eq!(take_chars("Ёжик в тумане", 4), "Ёжик");
    assert_eq!(pages_detail(12), "12 стр.");
}

#[test]
fn usage_texts() {
    let u = usage_lines(Lang::En, "/home/u/.config/nymphalis.conf");
    assert_eq!(u[0], "Usage:");
    assert_eq!(u.len(), 38);
    assert_eq!(u[22], "      Save a setting into /home/u/.config/nymphalis.conf . Variables: user_id, api_key, jobs.");
    assert_eq!(u[37], "  nymphalis patreon download ./dir creator1 creator2");
    let ru = usage_lines(Lang::Ru, "p");
    assert_eq!(ru[0], "Использование:");
    assert_eq!(desu_usage_lines(Lang::En).len(), 10);
}

#[test]
fn completion_files() {
    let t = completion_targets("/tmp/pkg");
    assert_eq!(t.len(), 3);
    assert_eq!(t[0].shell, "fish");
    assert_eq!(t[0].path, "/tmp/pkg/usr/share/fish/vendor_completions.d/nymphalis.fish");
    assert!(t[1].content.starts_with("# nymphalis completions"));
    assert_eq!(t[2].path, "/tmp/pkg/usr/share/zsh/site-functions/_nymphalis");
    assert_eq!(completion_targets("")[1].path, "/usr/share/bash-completion/completions/nymphalis");
}

#[test]
fn names_in_capitals_and_unicode_spaces() {
    assert_eq!(resolve_service("GELBOORU.COM"), Some("gelbooru.com"));
    assert_eq!(nymphalis::browser::resolve_browser("FALKON").map(|b| b.bin), Some("falkon"));
    assert_eq!(nymphalis::browser::query_value("\u{3000}v=1\u{85}\u{a0}"), Some("v=1".to_string()));
    assert_eq!(nymphalis::browser::query_value("\u{2028}\t\u{200a}"), None);
}

#[test]
fn saved_items_are_skipped_and_counted() {
    assert!(already_saved(&[Some(10), Some(1)]));
    assert!(!already_saved(&[Some(10), Some(0)]));
    assert!(!already_saved(&[None]));
    assert!(already_saved(&[]));
    assert_eq!(tally(3, true), 4);
    assert_eq!(tally(3, false), 3);
}
