use nymphalis::browser::{
    cookie_query, default_open_command, launch_attempts, resolve_browser, session_stores,
    store_name, BrowserKind, CookieSite, Os,
};

#[test]
fn test_resolve_browser() {
    assert_eq!(resolve_browser("firefox").map(|b| b.bin), Some("firefox"));
    assert_eq!(resolve_browser("ff").map(|b| b.bin), Some("firefox"));
    assert_eq!(resolve_browser("chrome").map(|b| b.bin), Some("google-chrome"));
    assert_eq!(resolve_browser("google-chrome").map(|b| b.bin), Some("google-chrome"));
    assert_eq!(resolve_browser("chromium").map(|b| b.bin), Some("chromium"));
    assert_eq!(resolve_browser("brave").map(|b| b.bin), Some("brave-browser"));
    assert_eq!(resolve_browser("brave-browser").map(|b| b.bin), Some("brave-browser"));
    assert_eq!(resolve_browser("falkon").map(|b| b.bin), Some("falkon"));
    assert!(resolve_browser("unknown-browser").is_none());
}

#[test]
fn test_browser_macos_metadata() {
    let ff = resolve_browser("firefox").unwrap();
    assert_eq!(ff.mac_app, "Firefox");
    assert_eq!(ff.mac_bundle, "org.mozilla.firefox");

    let gc = resolve_browser("chrome").unwrap();
    assert_eq!(gc.mac_app, "Google Chrome");
    assert_eq!(gc.mac_bundle, "com.google.Chrome");

    let br = resolve_browser("brave").unwrap();
    assert_eq!(br.mac_app, "Brave Browser");
    assert_eq!(br.mac_bundle, "com.brave.Browser");

    let cr = resolve_browser("chromium").unwrap();
    assert_eq!(cr.mac_app, "Chromium");
    assert_eq!(cr.mac_bundle, "org.chromium.Chromium");

    let fa = resolve_browser("falkon").unwrap();
    assert_eq!(fa.mac_app, "Falkon");
    assert_eq!(fa.mac_bundle, "org.kde.falkon");
}

#[test]
fn test_resolve_browser_case_insensitivity() {
    assert_eq!(resolve_browser("FIREFOX").map(|b| b.bin), Some("firefox"));
    assert_eq!(resolve_browser("Chrome").map(|b| b.bin), Some("google-chrome"));
    assert_eq!(resolve_browser("BrAvE").map(|b| b.bin), Some("brave-browser"));
    assert_eq!(resolve_browser("CHROMIUM").map(|b| b.bin), Some("chromium"));
    assert_eq!(resolve_browser("FALKON").map(|b| b.bin), Some("falkon"));
}

#[test]
fn default_open_command_per_system() {
    assert_eq!(default_open_command(Os::MacOs), "open");
    assert_eq!(default_open_command(Os::Windows), "start");
    assert_eq!(default_open_command(Os::Other), "xdg-open");
}

#[test]
fn launch_falls_back_to_xdg_open() {
    let b = resolve_browser("firefox");
    let tries = launch_attempts(Os::Other, b, "https://x.test/", "open");
    assert_eq!(tries.len(), 2);
    assert_eq!(tries[0].program, "firefox");
    assert_eq!(tries[0].args, vec!["https://x.test/".to_string()]);
    assert_eq!(tries[1].program, "xdg-open");
    let none = launch_attempts(Os::Other, None, "u", "open");
    assert_eq!(none.len(), 1);
    assert_eq!(none[0].program, "xdg-open");
}

#[test]
fn launch_on_macos_tries_app_bundle_brew_and_path() {
    let b = resolve_browser("brave");
    let tries = launch_attempts(Os::MacOs, b, "u", "/usr/bin/open");
    assert_eq!(tries.len(), 5);
    assert_eq!(tries[0].args, vec!["-a".to_string(), "Brave Browser".to_string(), "u".to_string()]);
    assert!(tries[0].wait);
    assert_eq!(tries[1].args, vec!["-b".to_string(), "com.brave.Browser".to_string(), "u".to_string()]);
    assert_eq!(tries[2].program, "/opt/homebrew/bin/brave-browser");
    assert!(tries[2].needs_file);
    assert_eq!(tries[3].program, "/usr/local/bin/brave-browser");
    assert_eq!(tries[4].program, "brave-browser");
}

#[test]
fn launch_on_windows_uses_start() {
    let tries = launch_attempts(Os::Windows, None, "u", "open");
    assert_eq!(tries.len(), 1);
    assert_eq!(tries[0].program, "cmd");
    assert_eq!(tries[0].args, vec!["/c".to_string(), "start".to_string(), String::new(), "u".to_string()]);
}

#[test]
fn sessions_are_looked_for_in_every_browser() {
    let all = session_stores(None);
    assert_eq!(all.len(), 5);
    assert_eq!(all[0], BrowserKind::Firefox);
    assert_eq!(all[2], BrowserKind::Chromium("google-chrome"));
    assert_eq!(all[4], BrowserKind::Falkon);
    let one = session_stores(resolve_browser("chromium"));
    assert_eq!(one, vec![BrowserKind::Chromium("chromium")]);
    assert_eq!(store_name(BrowserKind::Chromium("brave-browser")), "brave-browser");
}

#[test]
fn cookie_queries_by_site_and_store() {
    let q = cookie_query(CookieSite::Desu, BrowserKind::Firefox);
    assert!(q.contains("moz_cookies"));
    assert!(q.contains("xf_%"));
    assert!(q.starts_with("SELECT GROUP_CONCAT(name || '=' || value, '; ') FROM (SELECT"));
    let p = cookie_query(CookieSite::Patreon, BrowserKind::Falkon);
    assert!(p.contains("session_id"));
    assert!(p.contains("host_key"));
}
