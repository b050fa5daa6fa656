use nymphalis::desu::{
    parse_slug_from_view_url, parse_slug_id, JsonScalar, RanobeChapterItem, RanobeChaptersResponse,
};

#[test]
fn test_parse_slug_from_view_url() {
    let url = "https://desu.uno/ranobe/sss-class-suicide-hunter.56/vol2/ch401/rus";
    assert_eq!(
        parse_slug_from_view_url(url),
        Some("sss-class-suicide-hunter.56".to_string())
    );
}

#[test]
fn test_parse_ranobe_chapters_json() {
    let resp = RanobeChaptersResponse {
        chapters: Some(vec![
            RanobeChapterItem {
                id: 100,
                volume: JsonScalar::Str("1".to_string()),
                number: JsonScalar::Str("5".to_string()),
                title: Some("Test Chapter".to_string()),
                chapter_type: Some("text".to_string()),
                view_url: Some("https://desu.uno/ranobe/test.1/vol1/ch5/rus".to_string()),
            },
            RanobeChapterItem {
                id: 101,
                volume: JsonScalar::Num("2".to_string()),
                number: JsonScalar::Num("10".to_string()),
                title: None,
                chapter_type: Some("hybrid".to_string()),
                view_url: Some("https://desu.uno/ranobe/test.1/vol2/ch10/rus".to_string()),
            },
        ]),
        errors: None,
        error: None,
    };
    let chapters = resp.chapters.unwrap();
    assert_eq!(chapters.len(), 2);
    assert_eq!(chapters[0].volume_str(), "1");
    assert_eq!(chapters[0].number_str(), "5");
    assert_eq!(chapters[1].volume_str(), "2");
    assert_eq!(chapters[1].number_str(), "10");
}

#[test]
fn slug_id_with_and_without_slug() {
    assert_eq!(parse_slug_id("some-title.5467"), Some(("some-title".to_string(), 5467)));
    assert_eq!(parse_slug_id("5467"), Some(("5467".to_string(), 5467)));
    assert_eq!(parse_slug_id("a.b.12"), Some(("a.b".to_string(), 12)));
    assert_eq!(parse_slug_id("title.x"), None);
    assert_eq!(parse_slug_id(""), None);
}
