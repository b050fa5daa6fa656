use nymphalis::epub::{build_epub, clean_xhtml, crc32, create_stored_zip, escape_xml, html_to_plain_text};

#[test]
fn test_crc32() {
    assert_eq!(crc32(b"123456789"), 0xCBF43926);
}

#[test]
fn test_create_stored_zip() {
    let zip = create_stored_zip(&[
        ("hello.txt", b"Hello, World!"),
        ("sub/dir.txt", b"Subdir text"),
    ]);
    assert!(zip.len() > 100);
    assert_eq!(&zip[0..4], &[0x50, 0x4b, 0x03, 0x04]);
}

#[test]
fn test_html_to_plain_text() {
    let html = "<p><i>Hello</i> &amp; <b>World!</b></p><p>Second &laquo;paragraph&raquo;</p>";
    let plain = html_to_plain_text(html);
    assert_eq!(plain, "Hello & World!\n\nSecond «paragraph»");
}

#[test]
fn test_build_epub() {
    let epub = build_epub("Test Title", "urn:desu:test", "<p>Hello</p>", &[]);
    assert!(epub.len() > 500);
    assert_eq!(&epub[0..4], &[0x50, 0x4b, 0x03, 0x04]);
}

#[test]
fn test_clean_xhtml() {
    let html = "<p>Text&nbsp;with&mdash;dashes<br>and <img src=\"foo.jpg\">.</p>";
    let cleaned = clean_xhtml(html);
    assert_eq!(
        cleaned,
        "<p>Text\u{00A0}with—dashes<br />and <img src=\"foo.jpg\" />.</p>"
    );
}

#[test]
fn crc32_of_nothing_is_zero() {
    assert_eq!(crc32(b""), 0);
}

#[test]
fn stored_zip_keeps_file_data_after_header() {
    let zip = create_stored_zip(&[("a.txt", b"abc")]);
    // 30-byte local header, 5-byte name, then the data as stored.
    assert_eq!(&zip[35..38], b"abc");
    // one local block (38), one central header (46 + 5) and the 22-byte end record.
    assert_eq!(zip.len(), 38 + 51 + 22);
}

#[test]
fn escape_xml_leaves_no_markup() {
    assert_eq!(escape_xml("<a href=\"x\">&'</a>"), "&lt;a href=&quot;x&quot;&gt;&amp;&apos;&lt;/a&gt;");
}

#[test]
fn epub_starts_with_uncompressed_mimetype() {
    let epub = build_epub("T", "id", "<p/>", &[("img_001", "images/img_001.png", b"PNG")]);
    assert_eq!(&epub[30..38], b"mimetype");
    assert_eq!(&epub[38..58], b"application/epub+zip");
}

#[test]
fn crc32_of_xored_bytes_is_xor_of_checksums() {
    let a = b"nymphalis".to_vec();
    let b = b"ZIP data!".to_vec();
    let c = b"\x00\xff\x10abcdef".to_vec();
    let x: Vec<u8> = a.iter().zip(&b).zip(&c).map(|((p, q), r)| p ^ q ^ r).collect();
    assert_eq!(crc32(&x), crc32(&a) ^ crc32(&b) ^ crc32(&c));
}

#[test]
fn cleaning_twice_changes_nothing() {
    let html = "<p>a<br>b &nbsp;&amp;nbsp; <img src=\"x.png\"><img/> <hr/> &mdash;&reg;<img src='y'</p>";
    let once = clean_xhtml(html);
    assert_eq!(clean_xhtml(&once), once);
    assert_eq!(once, "<p>a<br />b \u{a0}&amp;nbsp; <img src=\"x.png\" /><img/> <hr /> \u{2014}\u{ae}<img src='y'</p />");
}
