//! CRC-32, uncompressed ZIP archives and the EPUB books built from ranobe
//! chapters, with the XHTML clean-up and plain-text rendering they need.
use vstd::prelude::*;
use vstd::utf8::encode_utf8;
use vstd::string::StringSliceAdditionalSpecFns;
use crate::text::{
    chars_of, collapse_ws, eq_chars, find_from, find_from_exec, lemma_find_from, opt_int,
    push_all, push_str, replace_all, replace_str, spec_to_lowercase, starts_with,
    starts_with_exec, str_to_lowercase, string_of, sub_vec, trim, trim_vec, ends_with,
    ends_with_exec,
};

verus! {

// ----------------------------------------------------------------------------
// CRC-32 (IEEE 802.3, reflected, polynomial 0xEDB88320)
// ----------------------------------------------------------------------------

/// One shift of the reflected CRC register.
pub open spec fn crc_round(c: u32) -> u32 {
    if c & 1 != 0 {
        (c >> 1) ^ 0xEDB88320u32
    } else {
        c >> 1
    }
}

/// `n` shifts of the register.
pub open spec fn crc_rounds(c: u32, n: nat) -> u32
    decreases n,
{
    if n == 0 {
        c
    } else {
        crc_round(crc_rounds(c, (n - 1) as nat))
    }
}

/// The register after feeding `data`, starting from all ones.
pub open spec fn crc_register(data: Seq<u8>) -> u32
    decreases data.len(),
{
    if data.len() == 0 {
        0xFFFF_FFFFu32
    } else {
        crc_rounds(crc_register(data.drop_last()) ^ (data.last() as u32), 8)
    }
}

/// The CRC-32 checksum of `data`.
pub open spec fn spec_crc32(data: Seq<u8>) -> u32 {
    !crc_register(data)
}

/// The CRC-32 checksum of `data` (the checksum ZIP archives record).
pub fn crc32(data: &[u8]) -> (r: u32)
    ensures
        r == spec_crc32(data@),
{
    let mut crc: u32 = 0xFFFF_FFFF;
    let mut i: usize = 0;
    while i < data.len()
        invariant
            i <= data@.len(),
            crc == crc_register(data@.take(i as int)),
        decreases data@.len() - i,
    {
        assert(data@.take(i + 1).drop_last() == data@.take(i as int));
        let ghost start = crc ^ (data@[i as int] as u32);
        crc = crc ^ (data[i] as u32);
        let mut k: u32 = 0;
        while k < 8
            invariant
                k <= 8,
                crc == crc_rounds(start, k as nat),
            decreases 8 - k,
        {
            if (crc & 1) != 0 {
                crc = (crc >> 1) ^ 0xEDB88320u32;
            } else {
                crc = crc >> 1;
            }
            k = k + 1;
        }
        i = i + 1;
    }
    assert(data@.take(data@.len() as int) == data@);
    !crc
}

// ----------------------------------------------------------------------------
// Stored (uncompressed) ZIP archives
// ----------------------------------------------------------------------------

/// The two little-endian bytes of `x`.
pub open spec fn le16(x: int) -> Seq<u8> {
    seq![(x % 256) as u8, ((x / 256) % 256) as u8]
}

/// The four little-endian bytes of `x`.
pub open spec fn le32(x: int) -> Seq<u8> {
    seq![
        (x % 256) as u8,
        ((x / 256) % 256) as u8,
        ((x / 65536) % 256) as u8,
        ((x / 16777216) % 256) as u8,
    ]
}

/// `n` truncated to 16 bits.
pub open spec fn low16(n: int) -> int {
    n % 65536
}

/// `n` truncated to 32 bits.
pub open spec fn low32(n: int) -> int {
    n % 4294967296
}

/// `base` followed by the local file header of an entry and its data.
pub open spec fn add_local_header(base: Seq<u8>, name: Seq<u8>, data: Seq<u8>) -> Seq<u8> {
    base + le32(0x04034b50) + le16(20) + le16(0x0800) + le16(0) + le16(0) + le16(0) + le32(
        spec_crc32(data) as int,
    ) + le32(low32(data.len() as int)) + le32(low32(data.len() as int)) + le16(
        low16(name.len() as int),
    ) + le16(0) + name + data
}

/// `base` followed by the central directory header of an entry whose local
/// header starts at `offset`.
pub open spec fn add_central_header(
    base: Seq<u8>,
    name: Seq<u8>,
    data: Seq<u8>,
    offset: int,
) -> Seq<u8> {
    base + le32(0x02014b50) + le16(20) + le16(20) + le16(0x0800) + le16(0) + le16(0) + le16(0)
        + le32(spec_crc32(data) as int) + le32(low32(data.len() as int)) + le32(
        low32(data.len() as int),
    ) + le16(low16(name.len() as int)) + le16(0) + le16(0) + le16(0) + le16(0) + le32(0) + le32(
        offset,
    ) + name
}

/// The local headers and data of all entries, in order.
pub open spec fn local_block(fs: Seq<(Seq<u8>, Seq<u8>)>) -> Seq<u8>
    decreases fs.len(),
{
    if fs.len() == 0 {
        Seq::empty()
    } else {
        add_local_header(local_block(fs.drop_last()), fs.last().0, fs.last().1)
    }
}

/// The central directory of all entries, in order.
pub open spec fn central_block(fs: Seq<(Seq<u8>, Seq<u8>)>) -> Seq<u8>
    decreases fs.len(),
{
    if fs.len() == 0 {
        Seq::empty()
    } else {
        add_central_header(
            central_block(fs.drop_last()),
            fs.last().0,
            fs.last().1,
            local_block(fs.drop_last()).len() as int,
        )
    }
}

/// `base` followed by the end-of-central-directory record.
pub open spec fn add_end_record(
    base: Seq<u8>,
    count: int,
    central_size: int,
    central_offset: int,
) -> Seq<u8> {
    base + le32(0x06054b50) + le16(0) + le16(0) + le16(low16(count)) + le16(low16(count)) + le32(
        central_size,
    ) + le32(central_offset) + le16(0)
}

/// The stored ZIP archive of the entries `fs` (name bytes, data).
pub open spec fn stored_zip(fs: Seq<(Seq<u8>, Seq<u8>)>) -> Seq<u8> {
    add_end_record(
        local_block(fs) + central_block(fs),
        fs.len() as int,
        central_block(fs).len() as int,
        local_block(fs).len() as int,
    )
}

/// The archive's 32-bit offsets and sizes do not overflow.
pub open spec fn zip_fits(fs: Seq<(Seq<u8>, Seq<u8>)>) -> bool {
    local_block(fs).len() <= u32::MAX && central_block(fs).len() <= u32::MAX
}

/// The entries of `files` as name bytes (UTF-8) and data.
pub open spec fn zip_entries(files: Seq<(&str, &[u8])>) -> Seq<(Seq<u8>, Seq<u8>)> {
    files.map_values(|f: (&str, &[u8])| (f.0.spec_bytes(), f.1@))
}

/// Appends the two little-endian bytes of `x`.
fn push_le16(v: &mut Vec<u8>, x: u16)
    ensures
        final(v)@ == old(v)@ + le16(x as int),
{
    v.push((x % 256) as u8);
    v.push((x / 256 % 256) as u8);
    assert(final(v)@ =~= old(v)@ + le16(x as int));
}

/// Appends the four little-endian bytes of `x`.
fn push_le32(v: &mut Vec<u8>, x: u32)
    ensures
        final(v)@ == old(v)@ + le32(x as int),
{
    v.push((x % 256) as u8);
    v.push((x / 256 % 256) as u8);
    v.push((x / 65536 % 256) as u8);
    v.push((x / 16777216 % 256) as u8);
    assert(final(v)@ =~= old(v)@ + le32(x as int));
}

proof fn lemma_local_block_grows(fs: Seq<(Seq<u8>, Seq<u8>)>, k: int)
    requires
        0 <= k <= fs.len(),
    ensures
        local_block(fs.take(k)).len() <= local_block(fs).len(),
        central_block(fs.take(k)).len() <= central_block(fs).len(),
    decreases fs.len(),
{
    if k < fs.len() {
        assert(fs.drop_last().take(k) == fs.take(k));
        lemma_local_block_grows(fs.drop_last(), k);
    } else {
        assert(fs.take(k) == fs);
    }
}

/// An uncompressed ("stored") ZIP archive holding `files`, in order, each as
/// its name and data; names are written as UTF-8 and flagged so.
pub fn create_stored_zip(files: &[(&str, &[u8])]) -> (zip: Vec<u8>)
    requires
        zip_fits(zip_entries(files@)),
    ensures
        zip@ == stored_zip(zip_entries(files@)),
{
    let ghost fs = zip_entries(files@);
    let mut locals: Vec<u8> = Vec::new();
    let mut centrals: Vec<u8> = Vec::new();
    let mut offset: u32 = 0;
    let mut central_size: u32 = 0;
    let mut i: usize = 0;
    while i < files.len()
        invariant
            i <= files@.len(),
            fs == zip_entries(files@),
            zip_fits(fs),
            locals@ == local_block(fs.take(i as int)),
            centrals@ == central_block(fs.take(i as int)),
            offset == locals@.len(),
            central_size == centrals@.len(),
        decreases files@.len() - i,
    {
        let (name, data) = files[i];
        let name_bytes = name.as_bytes();
        let name_len = (name_bytes.len() % 65536) as u16;
        let size = (data.len() as u64 % 4294967296) as u32;
        let checksum = crc32(data);
        let ghost prev = fs.take(i as int);
        assert(fs.take(i + 1).drop_last() == prev);
        assert(fs.take(i + 1).last() == (name_bytes@, data@));
        let ghost local_start = locals@;
        let ghost central_start = centrals@;

        push_le32(&mut locals, 0x04034b50);
        push_le16(&mut locals, 20);
        push_le16(&mut locals, 0x0800);
        push_le16(&mut locals, 0);
        push_le16(&mut locals, 0);
        push_le16(&mut locals, 0);
        push_le32(&mut locals, checksum);
        push_le32(&mut locals, size);
        push_le32(&mut locals, size);
        push_le16(&mut locals, name_len);
        push_le16(&mut locals, 0);
        push_all(&mut locals, name_bytes);
        push_all(&mut locals, data);
        assert(locals@ == add_local_header(local_start, name_bytes@, data@));

        push_le32(&mut centrals, 0x02014b50);
        push_le16(&mut centrals, 20);
        push_le16(&mut centrals, 20);
        push_le16(&mut centrals, 0x0800);
        push_le16(&mut centrals, 0);
        push_le16(&mut centrals, 0);
        push_le16(&mut centrals, 0);
        push_le32(&mut centrals, checksum);
        push_le32(&mut centrals, size);
        push_le32(&mut centrals, size);
        push_le16(&mut centrals, name_len);
        push_le16(&mut centrals, 0);
        push_le16(&mut centrals, 0);
        push_le16(&mut centrals, 0);
        push_le16(&mut centrals, 0);
        push_le32(&mut centrals, 0);
        push_le32(&mut centrals, offset);
        push_all(&mut centrals, name_bytes);
        assert(centrals@ == add_central_header(
            central_start,
            name_bytes@,
            data@,
            local_block(prev).len() as int,
        ));

        proof {
            lemma_local_block_grows(fs, i + 1);
        }
        offset = locals.len() as u32;
        central_size = centrals.len() as u32;
        i = i + 1;
    }
    assert(fs.take(files@.len() as int) == fs);
    let central_offset = offset;
    let mut out = locals;
    push_all(&mut out, centrals.as_slice());
    push_le32(&mut out, 0x06054b50);
    push_le16(&mut out, 0);
    push_le16(&mut out, 0);
    let count = (files.len() as u64 % 65536) as u16;
    push_le16(&mut out, count);
    push_le16(&mut out, count);
    push_le32(&mut out, central_size);
    push_le32(&mut out, central_offset);
    push_le16(&mut out, 0);
    out
}


// ----------------------------------------------------------------------------
// XML escaping
// ----------------------------------------------------------------------------

/// The XML form of one character.
pub open spec fn xml_escape_char(c: char) -> Seq<char> {
    if c == '&' {
        "&amp;"@
    } else if c == '<' {
        "&lt;"@
    } else if c == '>' {
        "&gt;"@
    } else if c == '"' {
        "&quot;"@
    } else if c == '\'' {
        "&apos;"@
    } else {
        seq![c]
    }
}

/// `s` with `& < > " '` written as XML entities.
pub open spec fn spec_escape_xml(s: Seq<char>) -> Seq<char>
    decreases s.len(),
{
    if s.len() == 0 {
        Seq::empty()
    } else {
        spec_escape_xml(s.drop_last()) + xml_escape_char(s.last())
    }
}

fn escape_xml_vec(s: &[char]) -> (v: Vec<char>)
    ensures
        v@ == spec_escape_xml(s@),
{
    let mut out: Vec<char> = Vec::new();
    let mut i: usize = 0;
    while i < s.len()
        invariant
            i <= s@.len(),
            out@ == spec_escape_xml(s@.take(i as int)),
        decreases s@.len() - i,
    {
        let c = s[i];
        assert(s@.take(i + 1).drop_last() == s@.take(i as int));
        if c == '&' {
            push_str(&mut out, "&amp;");
        } else if c == '<' {
            push_str(&mut out, "&lt;");
        } else if c == '>' {
            push_str(&mut out, "&gt;");
        } else if c == '"' {
            push_str(&mut out, "&quot;");
        } else if c == '\'' {
            push_str(&mut out, "&apos;");
        } else {
            out.push(c);
        }
        i = i + 1;
    }
    assert(s@.take(s@.len() as int) == s@);
    out
}

/// `s` with `& < > " '` written as the XML entities `&amp; &lt; &gt; &quot;
/// &apos;`; every other character is kept.
pub fn escape_xml(s: &str) -> (r: String)
    ensures
        r@ == spec_escape_xml(s@),
{
    let v = chars_of(s);
    let e = escape_xml_vec(v.as_slice());
    string_of(e.as_slice())
}

// ----------------------------------------------------------------------------
// XHTML clean-up
// ----------------------------------------------------------------------------

/// Void tags closed and named HTML entities turned into their characters.
pub open spec fn xhtml_replacements(s: Seq<char>) -> Seq<char> {
    let s1 = replace_all(s, "<br>"@, "<br />"@);
    let s2 = replace_all(s1, "<br/>"@, "<br />"@);
    let s3 = replace_all(s2, "<hr>"@, "<hr />"@);
    let s4 = replace_all(s3, "<hr/>"@, "<hr />"@);
    let e1 = replace_all(s4, "&nbsp;"@, "\u{00A0}"@);
    let e2 = replace_all(e1, "&mdash;"@, "\u{2014}"@);
    let e3 = replace_all(e2, "&ndash;"@, "\u{2013}"@);
    let e4 = replace_all(e3, "&laquo;"@, "\u{00AB}"@);
    let e5 = replace_all(e4, "&raquo;"@, "\u{00BB}"@);
    let e6 = replace_all(e5, "&hellip;"@, "\u{2026}"@);
    let e7 = replace_all(e6, "&bull;"@, "\u{2022}"@);
    let e8 = replace_all(e7, "&ldquo;"@, "\u{201C}"@);
    let e9 = replace_all(e8, "&rdquo;"@, "\u{201D}"@);
    let e10 = replace_all(e9, "&lsquo;"@, "\u{2018}"@);
    let e11 = replace_all(e10, "&rsquo;"@, "\u{2019}"@);
    let e12 = replace_all(e11, "&copy;"@, "\u{00A9}"@);
    let e13 = replace_all(e12, "&reg;"@, "\u{00AE}"@);
    replace_all(e13, "&trade;"@, "\u{2122}"@)
}

/// An `<img ...>` tag in self-closing form.
pub open spec fn close_tag(tag: Seq<char>) -> Seq<char> {
    if ends_with(tag, "/>"@) {
        tag
    } else {
        tag.drop_last() + " />"@
    }
}

/// `s[pos..]` with every complete `<img ...>` tag made self-closing.
pub open spec fn close_img_from(s: Seq<char>, pos: int) -> Seq<char>
    decreases s.len() - pos,
{
    if pos < 0 || pos > s.len() {
        Seq::empty()
    } else {
        match find_from(s, "<img"@, pos) {
            None => s.skip(pos),
            Some(a) => match find_from(s, ">"@, a) {
                None => s.skip(pos),
                Some(e) => {
                    proof {
                        reveal_strlit(">");
                        lemma_find_from(s, "<img"@, pos);
                        lemma_find_from(s, ">"@, a);
                    }
                    s.subrange(pos, a) + close_tag(s.subrange(a, e + 1)) + close_img_from(
                        s,
                        e + 1,
                    )
                },
            },
        }
    }
}

/// The XHTML form of a chapter's HTML: `<br>`, `<hr>` and `<img>` made
/// self-closing and the common named entities replaced by their characters.
pub open spec fn spec_clean_xhtml(html: Seq<char>) -> Seq<char> {
    close_img_from(xhtml_replacements(html), 0)
}

fn xhtml_replacements_vec(s: &[char]) -> (v: Vec<char>)
    ensures
        v@ == xhtml_replacements(s@),
{
    let s1 = replace_str(s, "<br>", "<br />");
    let s2 = replace_str(s1.as_slice(), "<br/>", "<br />");
    let s3 = replace_str(s2.as_slice(), "<hr>", "<hr />");
    let s4 = replace_str(s3.as_slice(), "<hr/>", "<hr />");
    let e1 = replace_str(s4.as_slice(), "&nbsp;", "\u{00A0}");
    let e2 = replace_str(e1.as_slice(), "&mdash;", "\u{2014}");
    let e3 = replace_str(e2.as_slice(), "&ndash;", "\u{2013}");
    let e4 = replace_str(e3.as_slice(), "&laquo;", "\u{00AB}");
    let e5 = replace_str(e4.as_slice(), "&raquo;", "\u{00BB}");
    let e6 = replace_str(e5.as_slice(), "&hellip;", "\u{2026}");
    let e7 = replace_str(e6.as_slice(), "&bull;", "\u{2022}");
    let e8 = replace_str(e7.as_slice(), "&ldquo;", "\u{201C}");
    let e9 = replace_str(e8.as_slice(), "&rdquo;", "\u{201D}");
    let e10 = replace_str(e9.as_slice(), "&lsquo;", "\u{2018}");
    let e11 = replace_str(e10.as_slice(), "&rsquo;", "\u{2019}");
    let e12 = replace_str(e11.as_slice(), "&copy;", "\u{00A9}");
    let e13 = replace_str(e12.as_slice(), "&reg;", "\u{00AE}");
    replace_str(e13.as_slice(), "&trade;", "\u{2122}")
}

fn close_img_vec(s: &[char]) -> (v: Vec<char>)
    ensures
        v@ == close_img_from(s@, 0),
{
    let img = chars_of("<img");
    let gt = chars_of(">");
    let slash_gt = chars_of("/>");
    let mut out: Vec<char> = Vec::new();
    let mut pos: usize = 0;
    while pos <= s.len()
        invariant
            pos <= s@.len(),
            img@ == "<img"@,
            gt@ == ">"@,
            slash_gt@ == "/>"@,
            out@ + close_img_from(s@, pos as int) == close_img_from(s@, 0),
        decreases s@.len() - pos,
    {
        proof {
            lemma_find_from(s@, "<img"@, pos as int);
        }
        match find_from_exec(s, img.as_slice(), pos) {
            None => {
                let rest = sub_vec(s, pos, s.len());
                push_all(&mut out, rest.as_slice());
                return out;
            },
            Some(a) => {
                proof {
                    reveal_strlit(">");
                    lemma_find_from(s@, ">"@, a as int);
                }
                match find_from_exec(s, gt.as_slice(), a) {
                    None => {
                        let rest = sub_vec(s, pos, s.len());
                        push_all(&mut out, rest.as_slice());
                        return out;
                    },
                    Some(e) => {
                        let before = sub_vec(s, pos, a);
                        push_all(&mut out, before.as_slice());
                        let tag = sub_vec(s, a, e + 1);
                        if ends_with_exec(tag.as_slice(), slash_gt.as_slice()) {
                            push_all(&mut out, tag.as_slice());
                        } else {
                            let head = sub_vec(tag.as_slice(), 0, tag.len() - 1);
                            assert(head@ == tag@.drop_last());
                            push_all(&mut out, head.as_slice());
                            push_str(&mut out, " />");
                        }
                        pos = e + 1;
                    },
                }
            },
        }
    }
    out
}

/// The XHTML form of a chapter's HTML: `<br>`, `<br/>`, `<hr>`, `<hr/>`
/// become `<br />` and `<hr />`, the named entities `&nbsp; &mdash; &ndash;
/// &laquo; &raquo; &hellip; &bull; &ldquo; &rdquo; &lsquo; &rsquo; &copy;
/// &reg; &trade;` become their characters, and every complete `<img ...>` tag
/// not already ending in `/>` is closed with ` />`.
pub fn clean_xhtml(html: &str) -> (r: String)
    ensures
        r@ == spec_clean_xhtml(html@),
{
    let v = chars_of(html);
    let r1 = xhtml_replacements_vec(v.as_slice());
    let r2 = close_img_vec(r1.as_slice());
    string_of(r2.as_slice())
}

// ----------------------------------------------------------------------------
// Plain-text rendering
// ----------------------------------------------------------------------------

/// The HTML entities turned back into characters, in this order.
pub open spec fn spec_unescape_html_entities(s: Seq<char>) -> Seq<char> {
    let s1 = replace_all(s, "&quot;"@, "\""@);
    let s2 = replace_all(s1, "&amp;"@, "&"@);
    let s3 = replace_all(s2, "&lt;"@, "<"@);
    let s4 = replace_all(s3, "&gt;"@, ">"@);
    let s5 = replace_all(s4, "&#39;"@, "'"@);
    let s6 = replace_all(s5, "&apos;"@, "'"@);
    let s7 = replace_all(s6, "&nbsp;"@, " "@);
    let s8 = replace_all(s7, "&mdash;"@, "\u{2014}"@);
    let s9 = replace_all(s8, "&ndash;"@, "\u{2013}"@);
    let s10 = replace_all(s9, "&laquo;"@, "\u{00AB}"@);
    let s11 = replace_all(s10, "&raquo;"@, "\u{00BB}"@);
    replace_all(s11, "&hellip;"@, "\u{2026}"@)
}

/// `s` with `&quot; &amp; &lt; &gt; &#39; &apos; &nbsp; &mdash; &ndash;
/// &laquo; &raquo; &hellip;` replaced by their characters, one entity after
/// the other.
pub fn unescape_html_entities(s: &[char]) -> (v: Vec<char>)
    ensures
        v@ == spec_unescape_html_entities(s@),
{
    let s1 = replace_str(s, "&quot;", "\"");
    let s2 = replace_str(s1.as_slice(), "&amp;", "&");
    let s3 = replace_str(s2.as_slice(), "&lt;", "<");
    let s4 = replace_str(s3.as_slice(), "&gt;", ">");
    let s5 = replace_str(s4.as_slice(), "&#39;", "'");
    let s6 = replace_str(s5.as_slice(), "&apos;", "'");
    let s7 = replace_str(s6.as_slice(), "&nbsp;", " ");
    let s8 = replace_str(s7.as_slice(), "&mdash;", "\u{2014}");
    let s9 = replace_str(s8.as_slice(), "&ndash;", "\u{2013}");
    let s10 = replace_str(s9.as_slice(), "&laquo;", "\u{00AB}");
    let s11 = replace_str(s10.as_slice(), "&raquo;", "\u{00BB}");
    replace_str(s11.as_slice(), "&hellip;", "\u{2026}")
}

/// What closing a tag adds to the text: a blank line after `</p>` and
/// `</div...>`, a line break for `<br>`, `<br/>`, `<br />` (tag names compared
/// in lower case).
pub open spec fn tag_break(tag: Seq<char>) -> Seq<char> {
    let t = spec_to_lowercase(tag);
    if t == "/p"@ || starts_with(t, "/div"@) {
        "\n\n"@
    } else if t == "br"@ || t == "br/"@ || t == "br /"@ {
        "\n"@
    } else {
        Seq::empty()
    }
}

/// The text so far, whether inside a tag, and the tag read so far, after
/// reading `s` left to right.
pub open spec fn plain_state(s: Seq<char>) -> (Seq<char>, bool, Seq<char>)
    decreases s.len(),
{
    if s.len() == 0 {
        (Seq::empty(), false, Seq::empty())
    } else {
        let (out, in_tag, tag) = plain_state(s.drop_last());
        let c = s.last();
        if c == '<' {
            (out, true, Seq::empty())
        } else if c == '>' {
            (out + tag_break(tag), false, tag)
        } else if in_tag {
            (out, in_tag, tag.push(c))
        } else {
            (out.push(c), in_tag, tag)
        }
    }
}

/// The plain text of a chapter's HTML: tags dropped, paragraph and division
/// ends as blank lines, line breaks kept, entities decoded, and the result
/// trimmed.
pub open spec fn spec_html_to_plain_text(html: Seq<char>) -> Seq<char> {
    trim(spec_unescape_html_entities(plain_state(html).0))
}

fn tag_break_vec(tag: &[char]) -> (v: Vec<char>)
    ensures
        v@ == tag_break(tag@),
{
    let ts = string_of(tag);
    let lower = str_to_lowercase(ts.as_str());
    let t = chars_of(lower.as_str());
    let p = chars_of("/p");
    let div = chars_of("/div");
    let br = chars_of("br");
    let br1 = chars_of("br/");
    let br2 = chars_of("br /");
    let mut out: Vec<char> = Vec::new();
    if eq_chars(t.as_slice(), p.as_slice()) || starts_with_exec(t.as_slice(), div.as_slice()) {
        push_str(&mut out, "\n\n");
    } else if eq_chars(t.as_slice(), br.as_slice()) || eq_chars(t.as_slice(), br1.as_slice())
        || eq_chars(t.as_slice(), br2.as_slice()) {
        push_str(&mut out, "\n");
    }
    out
}

/// The plain text of a chapter's HTML: the characters outside tags, with a
/// blank line after `</p>` and `</div...>`, a line break for `<br>` (any of
/// its spellings, in any case), entities decoded by
/// `unescape_html_entities`, and surrounding whitespace trimmed.
pub fn html_to_plain_text(html: &str) -> (r: String)
    ensures
        r@ == spec_html_to_plain_text(html@),
{
    let s = chars_of(html);
    let mut out: Vec<char> = Vec::new();
    let mut in_tag = false;
    let mut tag: Vec<char> = Vec::new();
    let mut i: usize = 0;
    while i < s.len()
        invariant
            i <= s@.len(),
            (out@, in_tag, tag@) == plain_state(s@.take(i as int)),
        decreases s@.len() - i,
    {
        let c = s[i];
        assert(s@.take(i + 1).drop_last() == s@.take(i as int));
        if c == '<' {
            in_tag = true;
            tag = Vec::new();
        } else if c == '>' {
            in_tag = false;
            let b = tag_break_vec(tag.as_slice());
            push_all(&mut out, b.as_slice());
        } else if in_tag {
            tag.push(c);
        } else {
            out.push(c);
        }
        i = i + 1;
    }
    assert(s@.take(s@.len() as int) == s@);
    let u = unescape_html_entities(out.as_slice());
    let t = trim_vec(u.as_slice());
    string_of(t.as_slice())
}


// ----------------------------------------------------------------------------
// EPUB books
// ----------------------------------------------------------------------------

/// The container document pointing at the package file.
pub const CONTAINER_XML: &'static str = r#"<?xml version="1.0" encoding="UTF-8"?>
<container version="1.0" xmlns="urn:oasis:names:tc:opendocument:xmlns:container">
<rootfiles><rootfile full-path="OEBPS/package.opf" media-type="application/oebps-package+xml" />
</rootfiles></container>"#;

/// Piece 0 of the package document.
pub const OPF_0: &'static str = r#"<?xml version="1.0" encoding="UTF-8"?>
<package xmlns="http://www.idpf.org/2007/opf" version="3.0" unique-identifier="book-id" xml:lang="ru">
<metadata xmlns:dc="http://purl.org/dc/elements/1.1/">
<dc:identifier id="book-id">"#;

/// Piece 1 of the package document.
pub const OPF_1: &'static str = r#"</dc:identifier>
<dc:title>"#;

/// Piece 2 of the package document.
pub const OPF_2: &'static str = r#"</dc:title>
<dc:language>ru</dc:language>
<dc:publisher>Desu.Me</dc:publisher>
</metadata>
<manifest>
<item id="chapter" href="content.xhtml" media-type="application/xhtml+xml" />
<item id="nav" href="nav.xhtml" media-type="application/xhtml+xml" properties="nav" />
<item id="style" href="style.css" media-type="text/css" />
"#;

/// Piece 3 of the package document.
pub const OPF_3: &'static str = r#"
</manifest>
<spine>
<itemref idref="chapter" />
</spine>
</package>"#;

/// Piece 0 of the navigation document.
pub const NAV_0: &'static str = r#"<?xml version="1.0" encoding="UTF-8"?>
<html xmlns="http://www.w3.org/1999/xhtml" xmlns:epub="http://www.idpf.org/2007/ops" xml:lang="ru">
<head><title>Оглавление</title></head>
<body>
<nav epub:type="toc" id="toc">
<h1>Оглавление</h1>
<ol><li><a href="content.xhtml">"#;

/// Piece 1 of the navigation document.
pub const NAV_1: &'static str = r#"</a></li></ol>
</nav>
</body>
</html>"#;

/// Piece 0 of the chapter document.
pub const CONTENT_0: &'static str = r#"<?xml version="1.0" encoding="UTF-8"?>
<html xmlns="http://www.w3.org/1999/xhtml" xmlns:epub="http://www.idpf.org/2007/ops" xml:lang="ru">
<head><title>"#;

/// Piece 1 of the chapter document.
pub const CONTENT_1: &'static str = r#"</title><link rel="stylesheet" type="text/css" href="style.css" /></head>
<body>
<section epub:type="chapter">
<h1>"#;

/// Piece 2 of the chapter document.
pub const CONTENT_2: &'static str = r#"</h1>
"#;

/// Piece 3 of the chapter document.
pub const CONTENT_3: &'static str = r#"
</section>
</body>
</html>"#;

/// Piece 0 of a manifest item for an image.
pub const ITEM_0: &'static str = r#"<item id=""#;

/// Piece 1 of a manifest item for an image.
pub const ITEM_1: &'static str = r#"" href=""#;

/// Piece 2 of a manifest item for an image.
pub const ITEM_2: &'static str = r#"" media-type=""#;

/// Piece 3 of a manifest item for an image.
pub const ITEM_3: &'static str = r#"" />"#;

/// The book's style sheet.
pub const STYLE_CSS: &'static str = r#"body{margin:5%;font-family:serif;line-height:1.6;color:#222}
h1{margin:0 0 1.5em;font-size:1.45em;line-height:1.3}
p{margin:.75em 0;text-indent:1.25em}
a{color:#315b8a}
.chapter-image{margin:1.5em 0;text-align:center}
.chapter-image img{max-width:100%;height:auto}
blockquote{margin:1em 1.5em}
hr{border:0;border-top:1px solid #aaa}"#;

/// The media type an image gets in the manifest, by its file extension.
pub open spec fn media_type(path: Seq<char>) -> Seq<char> {
    if ends_with(path, ".png"@) {
        "image/png"@
    } else if ends_with(path, ".webp"@) {
        "image/webp"@
    } else if ends_with(path, ".gif"@) {
        "image/gif"@
    } else {
        "image/jpeg"@
    }
}

/// An image as id, path inside `OEBPS/`, and bytes.
pub open spec fn image_views(images: Seq<(&str, &str, &[u8])>) -> Seq<(Seq<char>, Seq<char>, Seq<u8>)> {
    images.map_values(|x: (&str, &str, &[u8])| (x.0@, x.1@, x.2@))
}

/// The manifest lines of the images, in order.
pub open spec fn manifest_items(images: Seq<(Seq<char>, Seq<char>, Seq<u8>)>) -> Seq<char>
    decreases images.len(),
{
    if images.len() == 0 {
        Seq::empty()
    } else {
        let (id, path, _bytes) = images.last();
        manifest_items(images.drop_last()) + ITEM_0@ + spec_escape_xml(id) + ITEM_1@
            + spec_escape_xml(path) + ITEM_2@ + media_type(path) + ITEM_3@ + "\n"@
    }
}

/// The package document.
pub open spec fn package_opf(title: Seq<char>, identifier: Seq<char>, images: Seq<(Seq<char>, Seq<char>, Seq<u8>)>) -> Seq<char> {
    OPF_0@ + spec_escape_xml(identifier) + OPF_1@ + spec_escape_xml(title) + OPF_2@
        + manifest_items(images) + OPF_3@
}

/// The navigation document.
pub open spec fn nav_xhtml(title: Seq<char>) -> Seq<char> {
    NAV_0@ + spec_escape_xml(title) + NAV_1@
}

/// The chapter document.
pub open spec fn content_xhtml(title: Seq<char>, content_html: Seq<char>) -> Seq<char> {
    CONTENT_0@ + spec_escape_xml(title) + CONTENT_1@ + spec_escape_xml(title) + CONTENT_2@
        + content_html + CONTENT_3@
}

/// The archive entries of the images.
pub open spec fn image_entries(images: Seq<(Seq<char>, Seq<char>, Seq<u8>)>) -> Seq<(Seq<u8>, Seq<u8>)> {
    images.map_values(|x: (Seq<char>, Seq<char>, Seq<u8>)| (encode_utf8("OEBPS/"@ + x.1), x.2))
}

/// The archive entries of an EPUB book with one chapter.
pub open spec fn epub_entries(
    title: Seq<char>,
    identifier: Seq<char>,
    content_html: Seq<char>,
    images: Seq<(Seq<char>, Seq<char>, Seq<u8>)>,
) -> Seq<(Seq<u8>, Seq<u8>)> {
    seq![
        (encode_utf8("mimetype"@), encode_utf8("application/epub+zip"@)),
        (encode_utf8("META-INF/container.xml"@), encode_utf8(CONTAINER_XML@)),
        (encode_utf8("OEBPS/package.opf"@), encode_utf8(package_opf(title, identifier, images))),
        (encode_utf8("OEBPS/nav.xhtml"@), encode_utf8(nav_xhtml(title))),
        (encode_utf8("OEBPS/content.xhtml"@), encode_utf8(content_xhtml(title, content_html))),
        (encode_utf8("OEBPS/style.css"@), encode_utf8(STYLE_CSS@)),
    ] + image_entries(images)
}

fn media_type_of(path: &[char]) -> (r: &'static str)
    ensures
        r@ == media_type(path@),
{
    let png = chars_of(".png");
    let webp = chars_of(".webp");
    let gif = chars_of(".gif");
    if ends_with_exec(path, png.as_slice()) {
        "image/png"
    } else if ends_with_exec(path, webp.as_slice()) {
        "image/webp"
    } else if ends_with_exec(path, gif.as_slice()) {
        "image/gif"
    } else {
        "image/jpeg"
    }
}

fn manifest_items_vec(images: &[(&str, &str, &[u8])]) -> (v: Vec<char>)
    ensures
        v@ == manifest_items(image_views(images@)),
{
    let ghost views = image_views(images@);
    let mut out: Vec<char> = Vec::new();
    let mut i: usize = 0;
    while i < images.len()
        invariant
            i <= images@.len(),
            views == image_views(images@),
            out@ == manifest_items(views.take(i as int)),
        decreases images@.len() - i,
    {
        let (id, path, _bytes) = images[i];
        assert(views.take(i + 1).drop_last() == views.take(i as int));
        assert(views.take(i + 1).last() == (id@, path@, _bytes@));
        let id_c = chars_of(id);
        let path_c = chars_of(path);
        push_str(&mut out, ITEM_0);
        let e = escape_xml_vec(id_c.as_slice());
        push_all(&mut out, e.as_slice());
        push_str(&mut out, ITEM_1);
        let e = escape_xml_vec(path_c.as_slice());
        push_all(&mut out, e.as_slice());
        push_str(&mut out, ITEM_2);
        push_str(&mut out, media_type_of(path_c.as_slice()));
        push_str(&mut out, ITEM_3);
        push_str(&mut out, "\n");
        i = i + 1;
    }
    assert(views.take(images@.len() as int) == views);
    out
}

fn package_opf_doc(title: &str, identifier: &str, images: &[(&str, &str, &[u8])]) -> (r: String)
    ensures
        r@ == package_opf(title@, identifier@, image_views(images@)),
{
    let title_c = chars_of(title);
    let title_escaped = escape_xml_vec(title_c.as_slice());
    let id_c = chars_of(identifier);
    let id_escaped = escape_xml_vec(id_c.as_slice());
    let manifest_images = manifest_items_vec(images);
    let mut opf: Vec<char> = Vec::new();
    push_str(&mut opf, OPF_0);
    push_all(&mut opf, id_escaped.as_slice());
    push_str(&mut opf, OPF_1);
    push_all(&mut opf, title_escaped.as_slice());
    push_str(&mut opf, OPF_2);
    push_all(&mut opf, manifest_images.as_slice());
    push_str(&mut opf, OPF_3);
    string_of(opf.as_slice())
}

fn nav_doc(title: &str) -> (r: String)
    ensures
        r@ == nav_xhtml(title@),
{
    let title_c = chars_of(title);
    let title_escaped = escape_xml_vec(title_c.as_slice());
    let mut nav: Vec<char> = Vec::new();
    push_str(&mut nav, NAV_0);
    push_all(&mut nav, title_escaped.as_slice());
    push_str(&mut nav, NAV_1);
    string_of(nav.as_slice())
}

fn content_doc(title: &str, content_html: &str) -> (r: String)
    ensures
        r@ == content_xhtml(title@, content_html@),
{
    let title_c = chars_of(title);
    let title_escaped = escape_xml_vec(title_c.as_slice());
    let mut content: Vec<char> = Vec::new();
    push_str(&mut content, CONTENT_0);
    push_all(&mut content, title_escaped.as_slice());
    push_str(&mut content, CONTENT_1);
    push_all(&mut content, title_escaped.as_slice());
    push_str(&mut content, CONTENT_2);
    push_str(&mut content, content_html);
    push_str(&mut content, CONTENT_3);
    string_of(content.as_slice())
}

fn image_paths(images: &[(&str, &str, &[u8])]) -> (r: Vec<String>)
    ensures
        r@.len() == images@.len(),
        forall|k: int| 0 <= k < images@.len() ==> #[trigger] r@[k]@ == "OEBPS/"@ + images@[k].1@,
{
    let mut owned_paths: Vec<String> = Vec::new();
    let mut j: usize = 0;
    while j < images.len()
        invariant
            j <= images@.len(),
            owned_paths@.len() == j,
            forall|k: int| 0 <= k < j ==> #[trigger] owned_paths@[k]@ == "OEBPS/"@ + images@[k].1@,
        decreases images@.len() - j,
    {
        let (_id, path, _bytes) = images[j];
        let mut p: Vec<char> = Vec::new();
        push_str(&mut p, "OEBPS/");
        push_str(&mut p, path);
        owned_paths.push(string_of(p.as_slice()));
        j = j + 1;
    }
    owned_paths
}

fn epub_files<'a>(
    package_opf_s: &'a String,
    nav_s: &'a String,
    content_s: &'a String,
    owned_paths: &'a Vec<String>,
    title: &str,
    identifier: &str,
    content_html: &str,
    images: &'a [(&'a str, &'a str, &'a [u8])],
) -> (files: Vec<(&'a str, &'a [u8])>)
    requires
        package_opf_s@ == package_opf(title@, identifier@, image_views(images@)),
        nav_s@ == nav_xhtml(title@),
        content_s@ == content_xhtml(title@, content_html@),
        owned_paths@.len() == images@.len(),
        forall|m: int| 0 <= m < images@.len() ==> #[trigger] owned_paths@[m]@ == "OEBPS/"@ + images@[m].1@,
    ensures
        zip_entries(files@) == epub_entries(title@, identifier@, content_html@, image_views(images@)),
{
    let ghost imgs = image_views(images@);
    let ghost entries = epub_entries(title@, identifier@, content_html@, imgs);
    let mut files: Vec<(&str, &[u8])> = Vec::new();
    files.push(("mimetype", "application/epub+zip".as_bytes()));
    files.push(("META-INF/container.xml", CONTAINER_XML.as_bytes()));
    files.push(("OEBPS/package.opf", package_opf_s.as_str().as_bytes()));
    files.push(("OEBPS/nav.xhtml", nav_s.as_str().as_bytes()));
    files.push(("OEBPS/content.xhtml", content_s.as_str().as_bytes()));
    files.push(("OEBPS/style.css", STYLE_CSS.as_bytes()));
    assert(zip_entries(files@) =~= entries.take(6));
    let mut k: usize = 0;
    while k < images.len()
        invariant
            k <= images@.len(),
            imgs == image_views(images@),
            entries == epub_entries(title@, identifier@, content_html@, imgs),
            owned_paths@.len() == images@.len(),
            forall|m: int| 0 <= m < images@.len() ==> #[trigger] owned_paths@[m]@ == "OEBPS/"@ + images@[m].1@,
            zip_entries(files@) == entries.take(6 + k),
        decreases images@.len() - k,
    {
        let (_id, _path, bytes) = images[k];
        let name: &str = owned_paths[k].as_str();
        let ghost before = files@;
        files.push((name, bytes));
        assert(entries[6 + k] == (encode_utf8("OEBPS/"@ + images@[k as int].1@), bytes@));
        assert(zip_entries(files@) =~= zip_entries(before).push((name.spec_bytes(), bytes@)));
        assert(entries.take(6 + k + 1) =~= entries.take(6 + k).push(entries[6 + k]));
        k = k + 1;
    }
    assert(entries.take(6 + images@.len() as int) =~= entries);
    files
}

proof fn lemma_central_header_len(base: Seq<u8>, name: Seq<u8>, data: Seq<u8>, offset: int)
    ensures
        add_central_header(base, name, data, offset).len() == base.len() + 46 + name.len(),
{
    let h = add_central_header(base, name, data, offset);
    let fixed = le32(0x02014b50) + le16(20) + le16(20) + le16(0x0800) + le16(0) + le16(0) + le16(0)
        + le32(spec_crc32(data) as int) + le32(low32(data.len() as int)) + le32(
        low32(data.len() as int),
    ) + le16(low16(name.len() as int)) + le16(0) + le16(0) + le16(0) + le16(0) + le32(0) + le32(
        offset,
    );
    assert(fixed.len() == 46);
    assert(h =~= base + fixed + name);
}

proof fn lemma_block_lengths(fs: Seq<(Seq<u8>, Seq<u8>)>)
    requires
        fs.len() > 0,
    ensures
        local_block(fs).len() == local_block(fs.drop_last()).len() + 30 + fs.last().0.len() + fs.last().1.len(),
        central_block(fs).len() == central_block(fs.drop_last()).len() + 46 + fs.last().0.len(),
{
    lemma_local_header_shape(local_block(fs.drop_last()), fs.last().0, fs.last().1);
    lemma_central_header_len(
        central_block(fs.drop_last()),
        fs.last().0,
        fs.last().1,
        local_block(fs.drop_last()).len() as int,
    );
}

/// The lengths of the local block and of the central directory.
#[verifier::opaque]
pub open spec fn block_sizes(fs: Seq<(Seq<u8>, Seq<u8>)>) -> (int, int) {
    (local_block(fs).len() as int, central_block(fs).len() as int)
}

proof fn lemma_fits_step(fs: Seq<(Seq<u8>, Seq<u8>)>, i: int)
    requires
        0 <= i < fs.len(),
    ensures
        block_sizes(fs.take(i + 1)).0 == block_sizes(fs.take(i)).0 + 30 + fs[i].0.len() + fs[i].1.len(),
        block_sizes(fs.take(i + 1)).1 == block_sizes(fs.take(i)).1 + 46 + fs[i].0.len(),
        block_sizes(fs.take(i + 1)).0 <= block_sizes(fs).0,
        block_sizes(fs.take(i + 1)).1 <= block_sizes(fs).1,
{
    reveal(block_sizes);
    lemma_block_lengths(fs.take(i + 1));
    assert(fs.take(i + 1).drop_last() =~= fs.take(i));
    assert(fs.take(i + 1).last() == fs[i]);
    lemma_local_block_grows(fs, i + 1);
}

proof fn lemma_fits_sizes(fs: Seq<(Seq<u8>, Seq<u8>)>)
    ensures
        zip_fits(fs) == (block_sizes(fs).0 <= u32::MAX && block_sizes(fs).1 <= u32::MAX),
        block_sizes(fs.take(0)) == (0int, 0int),
        fs.take(fs.len() as int) == fs,
{
    reveal(block_sizes);
    assert(fs.take(0) =~= Seq::<(Seq<u8>, Seq<u8>)>::empty());
    assert(fs.take(fs.len() as int) =~= fs);
}

/// Whether the archive of `files` fits the format's 32-bit sizes and
/// offsets.
pub fn zip_fits_exec(files: &[(&str, &[u8])]) -> (b: bool)
    ensures
        b == zip_fits(zip_entries(files@)),
{
    let ghost fs = zip_entries(files@);
    proof {
        lemma_fits_sizes(fs);
    }
    let mut local: u64 = 0;
    let mut central: u64 = 0;
    let mut i: usize = 0;
    while i < files.len()
        invariant
            i <= files@.len(),
            fs == zip_entries(files@),
            zip_fits(fs) == (block_sizes(fs).0 <= u32::MAX && block_sizes(fs).1 <= u32::MAX),
            local == block_sizes(fs.take(i as int)).0,
            central == block_sizes(fs.take(i as int)).1,
            local <= u32::MAX,
            central <= u32::MAX,
        decreases files@.len() - i,
    {
        let (name, data) = files[i];
        let n = name.as_bytes().len() as u64;
        let d = data.len() as u64;
        proof {
            lemma_fits_step(fs, i as int);
            assert(fs[i as int] == (name.spec_bytes(), data@));
        }
        if n > 0xFFFF_FFFF || d > 0xFFFF_FFFF || 30 + n + d > 0xFFFF_FFFF - local || 46 + n > 0xFFFF_FFFF
            - central {
            return false;
        }
        local = local + 30 + n + d;
        central = central + 46 + n;
        i = i + 1;
    }
    true
}

/// Whether the book `build_epub` makes of these parts fits the archive
/// format's 32-bit sizes and offsets (books beyond 4 GiB do not).
pub fn epub_fits(title: &str, identifier: &str, content_html: &str, images: &[(&str, &str, &[u8])]) -> (b: bool)
    ensures
        b == zip_fits(epub_entries(title@, identifier@, content_html@, image_views(images@))),
{
    let package_opf_s = package_opf_doc(title, identifier, images);
    let nav_s = nav_doc(title);
    let content_s = content_doc(title, content_html);
    let owned_paths = image_paths(images);
    let files = epub_files(&package_opf_s, &nav_s, &content_s, &owned_paths, title, identifier, content_html, images);
    zip_fits_exec(files.as_slice())
}

/// An EPUB 3 book with one chapter, as a stored ZIP archive whose entries are,
/// in order: `mimetype`, the container document, the package document
/// (identifier, title, and a manifest line for each image with its media type
/// by extension), the navigation document, the chapter document holding
/// `content_html` under the title, the style sheet, then each image (id,
/// path, bytes) under `OEBPS/`. Title, identifier and image ids and paths are
/// XML-escaped where they appear in documents.
pub fn build_epub(
    title: &str,
    identifier: &str,
    content_html: &str,
    images: &[(&str, &str, &[u8])],
) -> (book: Vec<u8>)
    requires
        zip_fits(epub_entries(title@, identifier@, content_html@, image_views(images@))),
    ensures
        book@ == stored_zip(epub_entries(title@, identifier@, content_html@, image_views(images@))),
{
    let package_opf_s = package_opf_doc(title, identifier, images);
    let nav_s = nav_doc(title);
    let content_s = content_doc(title, content_html);
    let owned_paths = image_paths(images);
    let files = epub_files(&package_opf_s, &nav_s, &content_s, &owned_paths, title, identifier, content_html, images);
    create_stored_zip(files.as_slice())
}

// ----------------------------------------------------------------------------
// Laws
// ----------------------------------------------------------------------------

proof fn lemma_local_block_prefix(fs: Seq<(Seq<u8>, Seq<u8>)>, k: int)
    requires
        0 <= k <= fs.len(),
    ensures
        local_block(fs.take(k)).len() <= local_block(fs).len(),
        local_block(fs) .subrange(0, local_block(fs.take(k)).len() as int) == local_block(fs.take(k)),
    decreases fs.len(),
{
    if k < fs.len() {
        assert(fs.drop_last().take(k) == fs.take(k));
        lemma_local_block_prefix(fs.drop_last(), k);
        let p = local_block(fs.take(k));
        let b = local_block(fs.drop_last());
        assert(local_block(fs).subrange(0, p.len() as int) =~= b.subrange(0, p.len() as int));
    } else {
        assert(fs.take(k) == fs);
        assert(local_block(fs).subrange(0, local_block(fs).len() as int) =~= local_block(fs));
    }
}

proof fn lemma_local_header_shape(base: Seq<u8>, name: Seq<u8>, data: Seq<u8>)
    ensures
        ({
            let h = add_local_header(base, name, data);
            let b = base.len() as int;
            &&& h.len() == b + 30 + name.len() + data.len()
            &&& h.subrange(0, b) == base
            &&& h.subrange(b, b + 4) == le32(0x04034b50)
            &&& h.subrange(b + 30, b + 30 + name.len()) == name
            &&& h.subrange(b + 30 + name.len(), h.len() as int) == data
        }),
{
    let b = base.len() as int;
    let s1 = base + le32(0x04034b50);
    let s12 = s1 + le16(20) + le16(0x0800) + le16(0) + le16(0) + le16(0) + le32(
        spec_crc32(data) as int,
    ) + le32(low32(data.len() as int)) + le32(low32(data.len() as int)) + le16(
        low16(name.len() as int),
    ) + le16(0) + name;
    let h = add_local_header(base, name, data);
    assert(h == s12 + data);
    assert(h.subrange(s12.len() as int, h.len() as int) =~= data);
    assert(h.subrange(0, b) =~= base);
    assert(h.subrange(b, b + 4) =~= le32(0x04034b50));
    assert(h.subrange(b + 30, b + 30 + name.len()) =~= name) by {
        let fixed = le32(0x04034b50) + le16(20) + le16(0x0800) + le16(0) + le16(0) + le16(0) + le32(
            spec_crc32(data) as int,
        ) + le32(low32(data.len() as int)) + le32(low32(data.len() as int)) + le16(
            low16(name.len() as int),
        ) + le16(0);
        assert(fixed.len() == 30);
        assert(h =~= base + fixed + name + data);
    }
}

proof fn lemma_end_record_prefix(base: Seq<u8>, count: int, central_size: int, central_offset: int)
    ensures
        add_end_record(base, count, central_size, central_offset).subrange(0, base.len() as int) == base,
        add_end_record(base, count, central_size, central_offset).len() == base.len() + 22,
{
    let z = add_end_record(base, count, central_size, central_offset);
    let tail = le32(0x06054b50) + le16(0) + le16(0) + le16(low16(count)) + le16(low16(count)) + le32(
        central_size,
    ) + le32(central_offset) + le16(0);
    assert(z =~= base + tail);
    assert(z.subrange(0, base.len() as int) =~= base);
}

proof fn lemma_zip_starts_with_locals(fs: Seq<(Seq<u8>, Seq<u8>)>)
    ensures
        stored_zip(fs).subrange(0, local_block(fs).len() as int) == local_block(fs),
        local_block(fs).len() <= stored_zip(fs).len(),
{
    let lb = local_block(fs);
    let cb = central_block(fs);
    lemma_end_record_prefix(lb + cb, fs.len() as int, cb.len() as int, lb.len() as int);
    let z = stored_zip(fs);
    assert(z.subrange(0, (lb + cb).len() as int) == lb + cb);
    assert(z.subrange(0, lb.len() as int) =~= (lb + cb).subrange(0, lb.len() as int));
    assert((lb + cb).subrange(0, lb.len() as int) =~= lb);
}

/// A stored archive keeps every entry whole: the `k`-th entry's local header
/// starts (with its signature) where the entries before it end, and its data
/// follows the 30-byte header and the name unchanged.
pub proof fn law_stored_zip_keeps_data(fs: Seq<(Seq<u8>, Seq<u8>)>, k: int)
    requires
        0 <= k < fs.len(),
    ensures
        ({
            let off = local_block(fs.take(k)).len() as int;
            let name = fs[k].0;
            let data = fs[k].1;
            let zip = stored_zip(fs);
            &&& zip.subrange(off, off + 4) == le32(0x04034b50)
            &&& zip.subrange(off + 30 + name.len(), off + 30 + name.len() + data.len()) == data
        }),
{
    let off = local_block(fs.take(k)).len() as int;
    let name = fs[k].0;
    let data = fs[k].1;
    let zip = stored_zip(fs);
    lemma_local_block_prefix(fs, k + 1);
    assert(fs.take(k + 1).drop_last() == fs.take(k));
    let entry = local_block(fs.take(k + 1));
    assert(entry == add_local_header(local_block(fs.take(k)), name, data));
    lemma_local_header_shape(local_block(fs.take(k)), name, data);
    let lb = local_block(fs);
    lemma_zip_starts_with_locals(fs);
    assert(zip.subrange(0, entry.len() as int) =~= entry) by {
        assert(zip.subrange(0, entry.len() as int) =~= zip.subrange(0, lb.len() as int).subrange(0, entry.len() as int));
        assert(lb.subrange(0, entry.len() as int) == entry);
    }
    assert(zip.subrange(off, off + 4) =~= entry.subrange(off, off + 4));
    assert(zip.subrange(off + 30 + name.len(), off + 30 + name.len() + data.len()) =~= entry.subrange(
        off + 30 + name.len(),
        off + 30 + name.len() + data.len(),
    ));
}

/// A stored archive is exactly as long as its local headers with data, its
/// central directory, and the 22-byte end record.
pub proof fn law_stored_zip_length(fs: Seq<(Seq<u8>, Seq<u8>)>)
    ensures
        stored_zip(fs).len() == local_block(fs).len() + central_block(fs).len() + 22,
{
}

/// Escaped text holds no markup characters: no `<`, `>`, `"` or `'`.
pub proof fn law_escape_xml_has_no_markup(s: Seq<char>)
    ensures
        forall|i: int|
            0 <= i < spec_escape_xml(s).len() ==> {
                let c = #[trigger] spec_escape_xml(s)[i];
                c != '<' && c != '>' && c != '"' && c != '\''
            },
    decreases s.len(),
{
    reveal_strlit("&amp;");
    reveal_strlit("&lt;");
    reveal_strlit("&gt;");
    reveal_strlit("&quot;");
    reveal_strlit("&apos;");
    if s.len() > 0 {
        law_escape_xml_has_no_markup(s.drop_last());
        let pre = spec_escape_xml(s.drop_last());
        let e = xml_escape_char(s.last());
        assert forall|i: int| 0 <= i < spec_escape_xml(s).len() implies {
            let c = #[trigger] spec_escape_xml(s)[i];
            c != '<' && c != '>' && c != '"' && c != '\''
        } by {
            if i >= pre.len() {
                assert(spec_escape_xml(s)[i] == e[i - pre.len()]);
            } else {
                assert(spec_escape_xml(s)[i] == pre[i]);
            }
        }
    }
}

// ----------------------------------------------------------------------------
// CRC-32 is affine
// ----------------------------------------------------------------------------

/// The bytes of three equally long sequences, combined by exclusive or.
pub open spec fn xor3(a: Seq<u8>, b: Seq<u8>, c: Seq<u8>) -> Seq<u8> {
    Seq::new(a.len(), |i: int| a[i] ^ b[i] ^ c[i])
}

proof fn lemma_round_xor3(x: u32, y: u32, z: u32)
    ensures
        crc_round(x ^ y ^ z) == crc_round(x) ^ crc_round(y) ^ crc_round(z),
{
    let cx = crc_round(x);
    let cy = crc_round(y);
    let cz = crc_round(z);
    let cw = crc_round(x ^ y ^ z);
    assert(cw == cx ^ cy ^ cz) by (bit_vector)
        requires
            cx == (if x & 1 != 0 { (x >> 1) ^ 0xEDB88320u32 } else { x >> 1 }),
            cy == (if y & 1 != 0 { (y >> 1) ^ 0xEDB88320u32 } else { y >> 1 }),
            cz == (if z & 1 != 0 { (z >> 1) ^ 0xEDB88320u32 } else { z >> 1 }),
            cw == (if (x ^ y ^ z) & 1 != 0 { ((x ^ y ^ z) >> 1) ^ 0xEDB88320u32 } else { (x ^ y ^ z) >> 1 }),
    ;
}

proof fn lemma_rounds_xor3(x: u32, y: u32, z: u32, n: nat)
    ensures
        crc_rounds(x ^ y ^ z, n) == crc_rounds(x, n) ^ crc_rounds(y, n) ^ crc_rounds(z, n),
    decreases n,
{
    if n > 0 {
        lemma_rounds_xor3(x, y, z, (n - 1) as nat);
        let m = (n - 1) as nat;
        lemma_round_xor3(crc_rounds(x, m), crc_rounds(y, m), crc_rounds(z, m));
    }
}

proof fn lemma_register_xor3(a: Seq<u8>, b: Seq<u8>, c: Seq<u8>)
    requires
        a.len() == b.len(),
        b.len() == c.len(),
    ensures
        crc_register(xor3(a, b, c)) == crc_register(a) ^ crc_register(b) ^ crc_register(c),
    decreases a.len(),
{
    let w = xor3(a, b, c);
    if a.len() == 0 {
        assert(w.len() == 0);
        let f = 0xFFFF_FFFFu32;
        assert(f ^ f ^ f == f) by (bit_vector);
    } else {
        let (ad, bd, cd) = (a.drop_last(), b.drop_last(), c.drop_last());
        lemma_register_xor3(ad, bd, cd);
        assert(w.drop_last() =~= xor3(ad, bd, cd));
        let (ra, rb, rc) = (crc_register(ad), crc_register(bd), crc_register(cd));
        let (la, lb, lc) = (a.last(), b.last(), c.last());
        assert(w.last() == la ^ lb ^ lc);
        assert(((ra ^ rb ^ rc) ^ ((la ^ lb ^ lc) as u32)) == (ra ^ (la as u32)) ^ (rb ^ (lb as u32)) ^ (rc
            ^ (lc as u32))) by (bit_vector);
        lemma_rounds_xor3(ra ^ (la as u32), rb ^ (lb as u32), rc ^ (lc as u32), 8);
    }
}

/// CRC-32 is affine: the checksum of three equally long byte sequences
/// combined by exclusive or is the exclusive or of their checksums.
pub proof fn law_crc32_xor(a: Seq<u8>, b: Seq<u8>, c: Seq<u8>)
    requires
        a.len() == b.len(),
        b.len() == c.len(),
    ensures
        spec_crc32(xor3(a, b, c)) == spec_crc32(a) ^ spec_crc32(b) ^ spec_crc32(c),
{
    lemma_register_xor3(a, b, c);
    let (ra, rb, rc) = (crc_register(a), crc_register(b), crc_register(c));
    assert(!(ra ^ rb ^ rc) == !ra ^ !rb ^ !rc) by (bit_vector);
}

proof fn lemma_central_header_shape(base: Seq<u8>, name: Seq<u8>, data: Seq<u8>, offset: int)
    ensures
        ({
            let h = add_central_header(base, name, data, offset);
            let b = base.len() as int;
            &&& h.len() == b + 46 + name.len()
            &&& h.subrange(0, b) == base
            &&& h.subrange(b, b + 4) == le32(0x02014b50)
            &&& h.subrange(b + 42, b + 46) == le32(offset)
        }),
{
    let h = add_central_header(base, name, data, offset);
    let b = base.len() as int;
    let head = le32(0x02014b50) + le16(20) + le16(20) + le16(0x0800) + le16(0) + le16(0) + le16(0)
        + le32(spec_crc32(data) as int) + le32(low32(data.len() as int)) + le32(
        low32(data.len() as int),
    ) + le16(low16(name.len() as int)) + le16(0) + le16(0) + le16(0) + le16(0) + le32(0);
    assert(head.len() == 42);
    assert(h =~= base + head + le32(offset) + name);
    assert(h.subrange(0, b) =~= base);
    assert(h.subrange(b, b + 4) =~= le32(0x02014b50));
    assert(h.subrange(b + 42, b + 46) =~= le32(offset));
}

proof fn lemma_central_block_prefix(fs: Seq<(Seq<u8>, Seq<u8>)>, k: int)
    requires
        0 <= k <= fs.len(),
    ensures
        central_block(fs.take(k)).len() <= central_block(fs).len(),
        central_block(fs).subrange(0, central_block(fs.take(k)).len() as int) == central_block(fs.take(k)),
    decreases fs.len(),
{
    if k < fs.len() {
        assert(fs.drop_last().take(k) == fs.take(k));
        lemma_central_block_prefix(fs.drop_last(), k);
        let p = central_block(fs.take(k));
        let b = central_block(fs.drop_last());
        lemma_central_header_shape(b, fs.last().0, fs.last().1, local_block(fs.drop_last()).len() as int);
        assert(central_block(fs).subrange(0, p.len() as int) =~= b.subrange(0, p.len() as int));
    } else {
        assert(fs.take(k) == fs);
        assert(central_block(fs).subrange(0, central_block(fs).len() as int) =~= central_block(fs));
    }
}

proof fn lemma_zip_central_header(fs: Seq<(Seq<u8>, Seq<u8>)>, k: int)
    requires
        0 <= k < fs.len(),
    ensures
        ({
            let zip = stored_zip(fs);
            let c: int = (local_block(fs).len() + central_block(fs.take(k)).len()) as int;
            let off = local_block(fs.take(k)).len() as int;
            &&& zip.subrange(c, c + 4) == le32(0x02014b50)
            &&& zip.subrange(c + 42, c + 46) == le32(off)
        }),
{
    let zip = stored_zip(fs);
    let lb = local_block(fs);
    let cb = central_block(fs);
    let off = local_block(fs.take(k)).len() as int;
    let name = fs[k].0;
    let data = fs[k].1;
    lemma_central_block_prefix(fs, k + 1);
    assert(fs.take(k + 1).drop_last() == fs.take(k));
    assert(fs.take(k + 1).last() == fs[k]);
    let centry = central_block(fs.take(k + 1));
    let cpre = central_block(fs.take(k));
    lemma_central_header_shape(cpre, name, data, off);
    assert(centry == add_central_header(cpre, name, data, off));
    lemma_end_record_prefix(lb + cb, fs.len() as int, cb.len() as int, lb.len() as int);
    assert(zip.subrange(0, (lb + cb).len() as int) == lb + cb);
    let c: int = (lb.len() + cpre.len()) as int;
    let q: int = cpre.len() as int;
    assert forall|i: int| 0 <= i < centry.len() implies #[trigger] centry[i] == zip[lb.len() + i] by {
        assert(zip[lb.len() + i] == (lb + cb)[lb.len() + i]);
        assert(cb[i] == cb.subrange(0, centry.len() as int)[i]);
    }
    assert forall|i: int| 0 <= i < 4 implies #[trigger] zip.subrange(c, c + 4)[i] == le32(0x02014b50)[i] by {
        assert(centry[q + i] == centry.subrange(q, q + 4)[i]);
    }
    assert forall|i: int| 0 <= i < 4 implies #[trigger] zip.subrange(c + 42, c + 46)[i] == le32(off)[i] by {
        assert(centry[q + 42 + i] == centry.subrange(q + 42, q + 46)[i]);
    }
    assert(zip.subrange(c, c + 4) =~= le32(0x02014b50));
    assert(zip.subrange(c + 42, c + 46) =~= le32(off));
}

proof fn lemma_zip_local_name(fs: Seq<(Seq<u8>, Seq<u8>)>, k: int)
    requires
        0 <= k < fs.len(),
    ensures
        ({
            let zip = stored_zip(fs);
            let b: int = local_block(fs.take(k)).len() as int + 30;
            zip.subrange(b, b + fs[k].0.len()) == fs[k].0
        }),
{
    let zip = stored_zip(fs);
    let lb = local_block(fs);
    let off = local_block(fs.take(k)).len() as int;
    let name = fs[k].0;
    let data = fs[k].1;
    lemma_local_block_prefix(fs, k + 1);
    assert(fs.take(k + 1).drop_last() == fs.take(k));
    assert(fs.take(k + 1).last() == fs[k]);
    let entry = local_block(fs.take(k + 1));
    assert(entry == add_local_header(local_block(fs.take(k)), name, data));
    lemma_local_header_shape(local_block(fs.take(k)), name, data);
    lemma_zip_starts_with_locals(fs);
    let b: int = off + 30;
    assert forall|i: int| 0 <= i < name.len() implies #[trigger] zip.subrange(b, b + name.len())[i] == name[i] by {
        assert(zip[b + i] == zip.subrange(0, lb.len() as int)[b + i]);
        assert(lb[b + i] == lb.subrange(0, entry.len() as int)[b + i]);
        assert(entry[b + i] == entry.subrange(b, b + name.len())[i]);
    }
    assert(zip.subrange(b, b + name.len()) =~= name);
}

/// A stored archive's central directory points at the entries: the `k`-th
/// central header (with its signature) records in its local-header-offset
/// field (bytes 42 to 46) the position where the `k`-th local header
/// begins, and there stand the local header's signature and, 30 bytes on,
/// the entry's name.
pub proof fn law_stored_zip_offsets_point_at_entries(fs: Seq<(Seq<u8>, Seq<u8>)>, k: int)
    requires
        0 <= k < fs.len(),
    ensures
        ({
            let zip = stored_zip(fs);
            let c: int = (local_block(fs).len() + central_block(fs.take(k)).len()) as int;
            let off = local_block(fs.take(k)).len() as int;
            let name = fs[k].0;
            &&& zip.subrange(c, c + 4) == le32(0x02014b50)
            &&& zip.subrange(c + 42, c + 46) == le32(off)
            &&& zip.subrange(off, off + 4) == le32(0x04034b50)
            &&& zip.subrange(off + 30, off + 30 + name.len()) == name
        }),
{
    lemma_zip_central_header(fs, k);
    law_stored_zip_keeps_data(fs, k);
    lemma_zip_local_name(fs, k);
}

} // verus!
