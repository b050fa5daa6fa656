use nymphalis::account::{
    extract_xenforo_username, session_user, template_html_from, template_html_full,
    username_window_splits,
};
use nymphalis::desu::RanobeChapterContentItem;
use nymphalis::i18n::Lang;
use nymphalis::listing::{
    chapter_list, parse_chapter_id_from_reader_html, parse_manga_id_from_chlist,
    parse_search_results,
};
use nymphalis::order::stable_order;
use nymphalis::pages::{
    chapter_api_url, cover_url, manga_page, manga_url, next_pages_step, ranobe_api_url,
    reader_url, slug_id_text, title_name, PagesEvent, PagesPhase, PagesStep,
};
use nymphalis::ranobe::{
    add_item, chapter_title, content_order, display_title, ranobe_file_stem, ranobe_slug,
    ranobe_urn, RanobeText,
};
use nymphalis::desu::parse_slug_id;

#[test]
fn ids_on_pages() {
    let reader = "window.MangaReader = {\"chapter\": {\"vol\": 1, \"id\" : 9876}};";
    assert_eq!(parse_chapter_id_from_reader_html(reader), Some(9876));
    assert_eq!(parse_chapter_id_from_reader_html("nothing"), None);
    assert_eq!(parse_manga_id_from_chlist("<ul data-manga_id='5467'>"), Some(5467));
}

#[test]
fn chapter_list_from_download_buttons() {
    let html = "<ul class=\"chlist\"><li><a href=\"/manga/t.1/vol1/ch2/rus/\">2</a><span data-chapters_id=\"22\"></span></li>\
                <li><a href=\"https://desu.uno/manga/t.1/vol1/ch1/rus\">1</a></li>\
                <li><a href=\"/manga/t.1/vol1/ch2/rus\">again</a></li>\
                <li><a href=\"/other\">x</a></li></ul>";
    let chapters = chapter_list(html, "t.1");
    assert_eq!(chapters.len(), 2);
    assert_eq!(chapters[0].path, "manga/t.1/vol1/ch2/rus");
    assert_eq!(chapters[0].id, Some(22));
    assert_eq!(chapters[1].path, "manga/t.1/vol1/ch1/rus");
    assert_eq!(chapters[1].id, None);
}

#[test]
fn chapter_list_falls_back_to_links() {
    let html = "<a href=\"/manga/t.1/vol2/ch5/rus/\">x</a> <a href=\"manga/t.1/vol1/ch1/rus\">y</a> <a href=\"/manga/t.1/vol2/ch5/rus\">dup</a>";
    let chapters = chapter_list(html, "t.1/");
    let paths: Vec<&str> = chapters.iter().map(|c| c.path.as_str()).collect();
    assert_eq!(paths, vec!["manga/t.1/vol2/ch5/rus", "manga/t.1/vol1/ch1/rus"]);
    assert!(chapters.iter().all(|c| c.id.is_none()));
}

#[test]
fn search_results_new_and_old_layout() {
    let html = "<li><a href=\"/manga/gals.5467/\"><span class=\"AniMangaSearchCard__title\">Гал<b>ы</b></span>\
                <span class=\"AniMangaSearchCard__subtitle\">Gals</span></a></li><li>no link</li>";
    let r = parse_search_results(html);
    assert_eq!(r, vec![("gals.5467".to_string(), "Gals".to_string(), "Галы".to_string())]);

    let old = ">Манга< <li><a href=\"manga/a.1/\"><div class=\"itemTitle\"> A </div>\
               <div class=\"itemSubTitle\">А</div></a> >Аниме< <li><a href=\"manga/b.2\">";
    let r2 = parse_search_results(old);
    assert_eq!(r2, vec![("a.1".to_string(), "A".to_string(), "А".to_string())]);
}

#[test]
fn template_html_of_answers() {
    assert_eq!(template_html_full("{\"templateHtml\":\"<li>x</li>\"}", Lang::En).ok(), Some("<li>x</li>".to_string()));
    match template_html_full("{\"other\":1}", Lang::En) {
        Err(e) => assert_eq!(e, "templateHtml missing in response"),
        Ok(_) => panic!("found"),
    }
    match template_html_full("not json", Lang::En) {
        Err(e) => {
            assert!(e.starts_with("Failed to parse JSON: "));
            assert!(e.ends_with("\nServer response: not json"));
        },
        Ok(_) => panic!("parsed"),
    }
    match template_html_from(Err("boom".to_string()), Lang::En, "b") {
        Err(e) => assert_eq!(e, "Failed to parse JSON: boom\nServer response: b"),
        Ok(_) => panic!("parsed"),
    }
}

#[test]
fn user_names() {
    let page = "<html LoggedIn><a class=\"p-navgroup-link--user\" href=\"/u\">  Ann  </a>";
    assert_eq!(extract_xenforo_username(page), Some("Ann".to_string()));
    assert_eq!(session_user(page), Some("Ann".to_string()));
    assert_eq!(session_user("<html LoggedIn>"), Some("(authenticated)".to_string()));
    assert_eq!(session_user("<html>guest</html>"), None);
    let templated = "<a class=\"username\">{{name}}</a> <div AccountMenu>Bob</div>";
    assert_eq!(extract_xenforo_username(templated), Some("Bob".to_string()));
    let mut far = String::from("AccountMenu");
    far.push_str(&"x".repeat(288));
    far.push_str("ёё>name<");
    assert!(username_window_splits(&far));
    assert!(!username_window_splits(page));
}

#[test]
fn manga_addresses() {
    assert_eq!(slug_id_text("gals", 5467), "gals.5467");
    let (slug, id) = parse_slug_id(&slug_id_text("a.b-c", 42)).unwrap();
    assert_eq!((slug.as_str(), id), ("a.b-c", 42));
    assert_eq!(manga_url("gals.5467"), "https://desu.uno/manga/gals.5467/");
    assert_eq!(cover_url("ranobe", 7), "https://static.desu.uno/data/ranobe/covers/preview/7.jpg");
    assert_eq!(chapter_api_url(1, 2), "https://desu.uno/api/manga/1/chapters/2");
    assert_eq!(ranobe_api_url(3, None), "https://desu.uno/api/ranobe/3/chapters");
    assert_eq!(ranobe_api_url(3, Some(4)), "https://desu.uno/api/ranobe/3/chapters/4");
    assert_eq!(reader_url("manga/a.1/vol1/ch1/rus"), "https://desu.uno/manga/a.1/vol1/ch1/rus");
    assert_eq!(title_name(None, "fallback"), "fallback");
}

#[test]
fn manga_page_info() {
    let html = "<h1 class=\"t\"> Big <i>Title</i> </h1><ul data-manga_id=\"99\">";
    let p = manga_page(html, "https://desu.uno/manga/new-slug.5467/", "old.5467", 5467);
    assert_eq!(p.name, "Big Title");
    assert_eq!(p.slug_id, "new-slug.5467");
    assert_eq!(p.manga_id, 99);
    let q = manga_page("", "https://elsewhere/", "old.5467", 5467);
    assert_eq!((q.name.as_str(), q.slug_id.as_str(), q.manga_id), ("old.5467", "old.5467", 5467));
}

#[test]
fn chapter_pages_steps() {
    let (phase, step) = next_pages_step(PagesPhase::FirstApi, PagesEvent::Start(Some(5)), "p");
    assert!(matches!(step, PagesStep::Api(5)));
    let (phase, step) = next_pages_step(phase, PagesEvent::ApiPages(None), "manga/x/vol1/ch1/rus");
    match &step {
        PagesStep::Reader(u) => assert_eq!(u, "https://desu.uno/manga/x/vol1/ch1/rus"),
        _ => panic!("no reader step"),
    }
    let reader = "{\"chapter\": {\"id\": 77}} Reader.init({dir: \"https://img/\", images: [[\"1.jpg\",1,1],[\"2.jpg\",1,1]]})";
    let (phase, step) = next_pages_step(phase, PagesEvent::ReaderPage(Some(reader.to_string())), "p");
    assert!(matches!(step, PagesStep::Api(77)));
    let (_, step) = next_pages_step(phase, PagesEvent::ApiPages(Some(vec![])), "p");
    match step {
        PagesStep::Download(v) => assert_eq!(v.len(), 2),
        _ => panic!("no fallback"),
    }
    let (_, step) = next_pages_step(PagesPhase::Reader, PagesEvent::ReaderPage(None), "p");
    assert!(matches!(step, PagesStep::NoPages));
    let (_, step) = next_pages_step(PagesPhase::FirstApi, PagesEvent::ApiPages(Some(vec!["u".to_string()])), "p");
    assert!(matches!(step, PagesStep::Download(_)));
}

#[test]
fn ranobe_names() {
    assert_eq!(ranobe_file_stem("", "12"), "vol0_ch12");
    assert_eq!(ranobe_file_stem("2", ""), "vol2_ch0");
    assert_eq!(chapter_title(None, Some("  Start ")), "Start");
    assert_eq!(chapter_title(Some(""), Some("x")), "");
    assert_eq!(display_title("", "3", ""), "Глава 3");
    assert_eq!(display_title("0", "3", "Go"), "Глава 3. Go");
    assert_eq!(display_title("2", "3.5", "Go"), "Том 2 Глава 3.5. Go");
    assert_eq!(ranobe_urn(56, 401), "urn:desu:ranobe:56:401");
    assert_eq!(ranobe_slug(Some("https://desu.uno/ranobe/s.56/vol1/ch1/rus"), "x", 56), "s.56");
    assert_eq!(ranobe_slug(None, "s", 56), "s.56");
    assert_eq!(ranobe_slug(None, "56", 56), "56");
}

fn item(kind: &str, html: Option<&str>, url: Option<&str>, position: Option<u32>) -> RanobeChapterContentItem {
    RanobeChapterContentItem {
        item_type: kind.to_string(),
        html: html.map(|s| s.to_string()),
        url: url.map(|s| s.to_string()),
        media_type: None,
        position,
    }
}

#[test]
fn ranobe_content_order_is_stable() {
    let items = vec![item("text", None, None, Some(2)), item("text", None, None, None), item("text", None, None, Some(2)), item("text", None, None, Some(1))];
    assert_eq!(content_order(&items), vec![1, 3, 0, 2]);
    assert_eq!(stable_order(&[3, -1, 3, 0]), vec![1, 3, 0, 2]);
    assert_eq!(stable_order(&[]), Vec::<usize>::new());
}

#[test]
fn ranobe_text_assembly() {
    let mut t = RanobeText::new();
    assert!(add_item(&mut t, item("text", Some("<p>Hi&nbsp;there</p>"), None, None)).is_none());
    assert!(add_item(&mut t, item("video", None, Some("v"), None)).is_none());
    assert!(add_item(&mut t, item("image", None, Some(""), None)).is_none());
    let slot = add_item(&mut t, item("image", None, Some("https://i/x/pic.png?w=1"), None)).unwrap();
    assert_eq!(slot.number, 1);
    assert_eq!(slot.id, "img_001");
    assert_eq!(slot.rel_path, "images/img_001.png");
    t.finish_image(slot, Some(vec![1, 2, 3]));
    let slot2 = add_item(&mut t, item("image", None, Some("https://i/y"), None)).unwrap();
    assert_eq!(slot2.rel_path, "images/img_002.jpg");
    t.finish_image(slot2, None);
    assert!(t.has_error);
    assert_eq!(t.images.len(), 1);
    assert_eq!(
        t.content(),
        "<p>Hi\u{00A0}there</p>\n<div class=\"chapter-image\"><img src=\"images/img_001.png\" alt=\"\" /></div>\n"
    );
    assert_eq!(
        t.plain_text("Глава 1"),
        "Глава 1\n\nHi there\n\n[Иллюстрация: img_001.png]\n\n[Иллюстрация: img_002.jpg]"
    );
}
