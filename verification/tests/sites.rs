use base64::Engine;
use nymphalis::gelbooru::{
    completion_names, extract_array, head_size, parse_content_range_total, post_file, post_page,
    post_query, tag_query, tag_rows, Credentials,
};
use nymphalis::json::{to_json_text, JsonValue};
use nymphalis::kodik::{
    accepts, caesar_cipher, decode_src, episode_folder, kodik_utils_extract_domain, link_label,
    links_request, m3u8_chunks, page_details, page_links, video_file, video_request, video_source,
    KodikLinks,
};
use nymphalis::mangadex::{
    aggregate_chapters, best_title, chapter_server, first_result_id, is_uuid, md_download_args, md_page_name,
    page_url, percent_encode, ru_title, search_rows, search_url, slug_title, truncate,
};
use nymphalis::patreon::{
    account_name, campaign_id, campaign_url, collect_post_items, next_cursor, posts_url,
    push_item, rel_ids, sanitize_filename, status_message, subscriptions, ScanState,
};
use nymphalis::i18n::Lang;

fn s(t: &str) -> JsonValue {
    JsonValue::Str(t.to_string())
}
fn n(t: &str) -> JsonValue {
    JsonValue::Number(t.to_string())
}
fn obj(members: Vec<(&str, JsonValue)>) -> JsonValue {
    JsonValue::Object(members.into_iter().map(|(k, v)| (k.to_string(), v)).collect())
}
fn arr(items: Vec<JsonValue>) -> JsonValue {
    JsonValue::Array(items)
}

#[test]
fn json_printing() {
    assert_eq!(to_json_text(&n("123")), "123");
    assert_eq!(to_json_text(&s("a\"b\\c\n\u{1}")), "\"a\\\"b\\\\c\\n\\u0001\"");
    let v = obj(vec![("a", arr(vec![JsonValue::Null, JsonValue::Bool(true)])), ("b", obj(vec![]))]);
    assert_eq!(to_json_text(&v), "{\"a\":[null,true],\"b\":{}}");
}

#[test]
fn gelbooru_entries_and_files() {
    let single = obj(vec![("post", obj(vec![("id", n("9"))]))]);
    assert_eq!(extract_array(&single, "post").len(), 1);
    let none = obj(vec![("post", s("x"))]);
    assert_eq!(extract_array(&none, "post").len(), 0);
    let list = arr(vec![n("1"), n("2")]);
    assert_eq!(extract_array(&list, "post").len(), 2);

    let post = obj(vec![("id", n("42")), ("file_url", s("https://img/x/a.png"))]);
    assert_eq!(post_file(&post), Some(("42.png".to_string(), "https://img/x/a.png".to_string())));
    let no_id = obj(vec![("file_url", s("https://img/b"))]);
    assert_eq!(post_file(&no_id).unwrap().0, "unknown.jpg");
    let str_id = obj(vec![("id", s("7")), ("file_url", s("u.gif"))]);
    assert_eq!(post_file(&str_id).unwrap().0, "\"7\".gif");
    assert_eq!(post_file(&obj(vec![("file_url", s(""))])), None);

    let page = obj(vec![("@attributes", obj(vec![])), ("post", arr(vec![post.clone_value(), no_id]))]);
    let (files, more) = post_page(&page);
    assert_eq!(files.len(), 2);
    assert!(!more);
}

trait CloneValue {
    fn clone_value(&self) -> JsonValue;
}
impl CloneValue for JsonValue {
    fn clone_value(&self) -> JsonValue {
        match self {
            JsonValue::Null => JsonValue::Null,
            JsonValue::Bool(b) => JsonValue::Bool(*b),
            JsonValue::Number(t) => JsonValue::Number(t.clone()),
            JsonValue::Str(t) => JsonValue::Str(t.clone()),
            JsonValue::Array(a) => JsonValue::Array(a.iter().map(|x| x.clone_value()).collect()),
            JsonValue::Object(o) => JsonValue::Object(o.iter().map(|(k, v)| (k.clone(), v.clone_value())).collect()),
        }
    }
}

#[test]
fn gelbooru_tags_most_used_first() {
    let tags = obj(vec![(
        "tag",
        arr(vec![
            obj(vec![("name", s("a")), ("count", n("5"))]),
            obj(vec![("name", s("b")), ("count", n("50"))]),
            obj(vec![("count", n("5"))]),
            obj(vec![("name", s("d"))]),
        ]),
    )]);
    let rows = tag_rows(&tags);
    assert_eq!(
        rows,
        vec![("b".to_string(), 50), ("a".to_string(), 5), ("?".to_string(), 5), ("d".to_string(), 0)]
    );
    assert_eq!(completion_names(&tags), vec!["a".to_string(), "b".to_string(), "d".to_string()]);
}

#[test]
fn gelbooru_queries_and_sizes() {
    let creds = Credentials { user_id: "1".to_string(), api_key: "k".to_string() };
    let q = post_query("cat dog", 3, Some(&creds));
    assert_eq!(q.len(), 9);
    assert_eq!(q[4], ("tags".to_string(), "cat dog".to_string()));
    assert_eq!(q[5], ("limit".to_string(), "100".to_string()));
    assert_eq!(q[6], ("pid".to_string(), "3".to_string()));
    assert_eq!(q[8], ("api_key".to_string(), "k".to_string()));
    let t = tag_query("ae", 20, None);
    assert_eq!(t.len(), 7);
    assert_eq!(t[4], ("name_pattern".to_string(), "%ae%".to_string()));
    assert_eq!(parse_content_range_total("bytes 0-0/12345"), Some(12345));
    assert_eq!(parse_content_range_total("bytes 0-0/*"), None);
    assert_eq!(head_size(206, Some("bytes 0-0/99"), Some(1)), Some(99));
    assert_eq!(head_size(200, None, Some(7)), Some(7));
    assert_eq!(head_size(404, None, Some(7)), None);
}

#[test]
fn mangadex_titles() {
    let attrs = obj(vec![
        ("title", obj(vec![("en", s("Chainsaw Man"))])),
        ("altTitles", arr(vec![obj(vec![("ja", s("x"))]), obj(vec![("ru", s("Человек-бензопила"))])])),
    ]);
    assert_eq!(best_title(Some(&attrs)), "Chainsaw Man");
    assert_eq!(ru_title(Some(&attrs)), Some("Человек-бензопила".to_string()));
    let only_alt = obj(vec![("title", obj(vec![("ko", s("K"))])), ("altTitles", arr(vec![obj(vec![("en", s("E"))])]))]);
    assert_eq!(best_title(Some(&only_alt)), "E");
    let only_other = obj(vec![("title", obj(vec![("ko", s("K"))]))]);
    assert_eq!(best_title(Some(&only_other)), "K");
    assert_eq!(best_title(None), "?");
    assert_eq!(ru_title(None), None);
}

#[test]
fn mangadex_chapters_and_pages() {
    let agg = obj(vec![(
        "volumes",
        obj(vec![
            ("1", obj(vec![("chapters", obj(vec![("1", obj(vec![("id", s("u1"))])), ("2", obj(vec![("id", s(""))]))]))])),
            ("none", obj(vec![("chapters", obj(vec![("3", obj(vec![("id", s("u3"))]))]))])),
        ]),
    )]);
    assert_eq!(
        aggregate_chapters(&agg),
        vec![
            ("1".to_string(), "1".to_string(), "u1".to_string()),
            ("none".to_string(), "3".to_string(), "u3".to_string())
        ]
    );
    let server = obj(vec![
        ("baseUrl", s("https://s")),
        ("chapter", obj(vec![("hash", s("h")), ("data", arr(vec![s("a.png"), n("1"), s("b")]))])),
    ]);
    let (base, hash, pages) = chapter_server(&server);
    assert_eq!((base.as_str(), hash.as_str()), ("https://s", "h"));
    assert_eq!(pages, vec!["a.png".to_string(), "b".to_string()]);
    assert_eq!(page_url("https://s", "h", "a.png"), "https://s/data/h/a.png");
    assert_eq!(md_page_name(3, "a.png"), "0003.png");
    assert_eq!(md_page_name(3, "b"), "0003.b");
}

#[test]
fn mangadex_search() {
    assert_eq!(percent_encode("a b/ю~"), "a%20b%2F%D1%8E~");
    assert!(search_url("chainsaw man").starts_with("https://api.mangadex.org/manga?title=chainsaw%20man&contentRating[]=safe"));
    assert_eq!(truncate("abcdef", 3), "abc…");
    assert_eq!(truncate("abc", 3), "abc");
    let answer = obj(vec![("data", arr(vec![obj(vec![("id", s("u")), ("attributes", obj(vec![("title", obj(vec![("ru", s("Р"))]))]))])]))]);
    let rows = search_rows(&answer).unwrap();
    assert_eq!(rows, vec![("Р".to_string(), "u".to_string(), Some("Р".to_string()))]);
    assert!(search_rows(&obj(vec![("data", arr(vec![]))])).is_none());
}

#[test]
fn mangadex_download_by_slug_or_uuid() {
    let uuid = "a77742b1-befd-49a4-bff5-1ad4e6b0ef7b";
    assert!(is_uuid(uuid));
    assert!(!is_uuid("chainsaw-man"));
    assert!(!is_uuid("a77742b1-befd-49a4-bff5-1ad4e6b0ef7g"));
    let words = |v: &[&str]| v.iter().map(|s| s.to_string()).collect::<Vec<String>>();
    assert_eq!(md_download_args(&words(&["chainsaw-man"])), Some((".".to_string(), words(&["chainsaw-man"]))));
    assert_eq!(md_download_args(&words(&[uuid, uuid])), Some((".".to_string(), words(&[uuid, uuid]))));
    assert_eq!(md_download_args(&words(&["out", uuid])), Some(("out".to_string(), words(&[uuid]))));
    assert_eq!(md_download_args(&words(&[])), None);
    assert_eq!(slug_title("chainsaw-man"), "chainsaw man");
    let answer = obj(vec![("data", arr(vec![obj(vec![("id", s(uuid))]), obj(vec![("id", s("x"))])]))]);
    assert_eq!(first_result_id(&answer), Some(uuid.to_string()));
    assert_eq!(first_result_id(&obj(vec![("data", arr(vec![obj(vec![])]))])), None);
    assert_eq!(first_result_id(&obj(vec![("data", arr(vec![]))])), None);
}

#[test]
fn patreon_names_and_addresses() {
    assert_eq!(sanitize_filename("  my:file  name?.png "), "my_file name_.png");
    assert_eq!(sanitize_filename("Ünï (1) [x].jpg"), "Ünï (1) [x].jpg");
    assert_eq!(sanitize_filename("a/b:c  d.txt"), "a_b_c d.txt");
    assert_eq!(sanitize_filename(" x\ty "), "x_y");
    assert_eq!(campaign_url("a b"), "https://www.patreon.com/api/campaigns?filter[vanity]=a%20b");
    assert!(posts_url("9", Some("c1")).ends_with("&sort=-published_at&page[cursor]=c1"));
    assert_eq!(status_message(Lang::En, 401), "session expired or not logged in — run: nymphalis patreon login");
    assert_eq!(status_message(Lang::En, 500), "HTTP 500");
}

#[test]
fn patreon_answers() {
    let user = obj(vec![("data", obj(vec![("attributes", obj(vec![("full_name", s("Ann"))]))]))]);
    assert_eq!(account_name(&user), "Ann");
    assert_eq!(account_name(&obj(vec![])), "(unknown)");
    let camp = obj(vec![("data", arr(vec![obj(vec![("id", s("77"))])]))]);
    assert_eq!(campaign_id(&camp), Some("77".to_string()));
    let page = obj(vec![("meta", obj(vec![("pagination", obj(vec![("cursors", obj(vec![("next", s("N"))]))]))]))]);
    assert_eq!(next_cursor(&page), Some("N".to_string()));
}

#[test]
fn patreon_post_items_in_order() {
    let post = obj(vec![(
        "relationships",
        obj(vec![
            ("images", obj(vec![("data", arr(vec![obj(vec![("id", s("i1"))])]))])),
            ("attachments", obj(vec![("data", arr(vec![obj(vec![("id", s("a1"))])]))])),
            ("audio", obj(vec![("data", arr(vec![obj(vec![("id", s("s1"))])]))])),
        ]),
    )]);
    assert_eq!(rel_ids(&post, "images"), vec!["i1".to_string()]);
    let included = vec![
        obj(vec![("type", s("audio")), ("id", s("s1")), ("attributes", obj(vec![("download_url", s("https://x/t/song.mp3?sig=1"))]))]),
        obj(vec![("type", s("post_image")), ("id", s("i1")), ("attributes", obj(vec![("image_urls", obj(vec![("original", s("https://x/o.png"))]))]))]),
        obj(vec![("type", s("attachment")), ("id", s("a1")), ("attributes", obj(vec![("name", s("doc.pdf")), ("url", s("https://x/d"))]))]),
    ];
    let items = collect_post_items(&post, &included);
    assert_eq!(
        items,
        vec![
            ("file".to_string(), "https://x/o.png".to_string()),
            ("doc.pdf".to_string(), "https://x/d".to_string()),
            ("song.mp3".to_string(), "https://x/t/song.mp3?sig=1".to_string()),
        ]
    );
}

#[test]
fn patreon_scan_queues_each_name_once() {
    let mut st = ScanState::new();
    push_item(&mut st, "a b.png", "u1", false);
    push_item(&mut st, "a  b.png", "u2", false);
    push_item(&mut st, "c.png", "u3", true);
    push_item(&mut st, "d.png", "", false);
    push_item(&mut st, "???", "u4", false);
    assert_eq!(st.to_download, vec![("a b.png".to_string(), "u1".to_string()), ("___".to_string(), "u4".to_string())]);
    assert_eq!(st.already_have, 1);
    assert_eq!(st.seen.len(), 3);
}

#[test]
fn patreon_subscriptions() {
    let answer = obj(vec![
        ("data", obj(vec![("relationships", obj(vec![("pledges", obj(vec![("data", arr(vec![obj(vec![("id", s("p1"))]), obj(vec![("id", s("p2"))])]))]))]))])),
        (
            "included",
            arr(vec![
                obj(vec![
                    ("type", s("pledge")),
                    ("id", s("p1")),
                    ("attributes", obj(vec![("amount_cents", n("500")), ("status", s("active"))])),
                    ("relationships", obj(vec![("creator", obj(vec![("data", obj(vec![("id", s("c1"))]))]))])),
                ]),
                obj(vec![("type", s("pledge")), ("id", s("p2")), ("attributes", obj(vec![("status", s("declined"))]))]),
                obj(vec![("type", s("user")), ("id", s("c1")), ("attributes", obj(vec![("full_name", s("Bob")), ("vanity", s("bob"))]))]),
            ]),
        ),
    ]);
    let subs = subscriptions(&answer).unwrap();
    assert_eq!(subs, vec![("Bob".to_string(), "bob".to_string(), 500, "USD".to_string())]);
    assert!(subscriptions(&obj(vec![])).is_none());
}

#[test]
fn kodik_link_decoding() {
    assert_eq!(caesar_cipher("Dd-z", 3), "Aa-w");
    assert_eq!(caesar_cipher("abc", 0), "abc");
    assert_eq!(caesar_cipher(&caesar_cipher("Hello, World", 3), 23), "Hello, World");
    let encoded = base64::engine::general_purpose::STANDARD.encode("//example.com/a.mp4");
    assert_eq!(encoded, "Ly9leGFtcGxlLmNvbS9hLm1wNA==");
    assert_eq!(decode_src("Ob9ohJIwfJaoOpQyeV9kOp1zQD"), Some("https://example.com/a.mp4".to_string()));
    assert_eq!(decode_src("!!!"), None);
}

#[test]
fn kodik_playlist_pieces() {
    let playlist = "#EXTM3U\n#EXT-X-VERSION:3\n seg1.ts \r\nhttp://cdn/seg2.ts\n\n";
    assert_eq!(
        m3u8_chunks(playlist, "https://cloud/v/720.mp4:hls:manifest.m3u8"),
        vec!["https://cloud/v/seg1.ts".to_string(), "http://cdn/seg2.ts".to_string()]
    );
    assert_eq!(m3u8_chunks("a.ts", "noslash"), vec!["/a.ts".to_string()]);
    assert_eq!(episode_folder(".."), "episode");
    assert_eq!(episode_folder("Show"), "Show");
    assert_eq!(video_file("Show", 2), "Show_2.mkv");
}

#[test]
fn kodik_player_steps() {
    let req = video_request("https://kodik.info/seria/123/abc9/720p").ok().unwrap();
    assert_eq!((req.v_type.as_str(), req.v_id.as_str(), req.v_hash.as_str(), req.domain.as_str()), ("seria", "123", "abc9", "kodik.info"));
    assert!(video_request("nothing").is_err());
    assert_eq!(kodik_utils_extract_domain("//x/y"), None);

    let page = "var videoId = \"555\"; <script src=\"/assets/js/app.player_single.abc.js\"></script>";
    let d = page_details(&req, page).ok().unwrap();
    assert_eq!(d.video_id, "555");
    assert_eq!(d.translation_title, "unknown");
    assert_eq!(d.player_url, "https://kodik.info/assets/js/app.player_single.abc.js");
    match page_details(&req, "empty") {
        Err(e) => assert_eq!(e, "No player script found"),
        Ok(_) => panic!("found"),
    }

    let script = "$.ajax({ url: atob(\"L2Z0b3I=\") })";
    let (url, form) = links_request(&req, script).ok().unwrap();
    assert_eq!(url, "https://kodik.info/ftor");
    assert_eq!(form[0], ("type".to_string(), "seria".to_string()));
    assert_eq!(form[4], ("info".to_string(), "{}".to_string()));
    match links_request(&req, "nothing") {
        Err(e) => assert_eq!(e, "No endpoint found"),
        Ok(_) => panic!("found"),
    }
    assert!(links_request(&req, "url: atob('abc')").is_err());

    let none = KodikLinks { p720: None, p480: Some(vec![]), p360: None };
    match video_source(&none) {
        Err(e) => assert_eq!(e, "No links found in response"),
        Ok(_) => panic!("found"),
    }
    let bad = KodikLinks { p720: None, p480: Some(vec!["!!!".to_string()]), p360: None };
    match video_source(&bad) {
        Err(e) => assert_eq!(e, "Failed to decode link"),
        Ok(_) => panic!("found"),
    }
    let good = KodikLinks { p720: Some(vec!["Ob9ohJIwfJaoOpQyeV9kOp1zQD".to_string()]), p480: None, p360: None };
    assert_eq!(video_source(&good).ok(), Some("https://example.com/a.mp4".to_string()));
}

#[test]
fn kodik_links_on_a_page() {
    let text = "x \"https:\\/\\/kodik.info\\/seria\\/1\\/ab\\/720p?episode=3\" y //aniqit.com/video/2/cd z https://kodik.info/seria/1/ab/720p";
    let links = page_links(text);
    assert_eq!(
        links,
        vec!["https://kodik.info/seria/1/ab/720p".to_string(), "https://aniqit.com/video/2/cd".to_string()]
    );
    assert_eq!(link_label("https://k/seria/1/a?episode=12x", 0), "Episode 12");
    assert_eq!(link_label("https://k/seria/1/a?episode=", 4), "Episode 5");
    assert_eq!(link_label("https://k/seria/1/a", 1), "Video 2");
    assert!(accepts(" YES "));
    assert!(accepts("y"));
    assert!(!accepts("yeah"));
}
