//! Kodik video players: finding a video's stream address from the player's
//! page and script, decoding the obfuscated link, and listing the pieces of
//! the stream; finding player links on a web page.
use vstd::prelude::*;
use base64::Engine;
use vstd::utf8::{decode_utf8, encode_utf8, valid_utf8};
use crate::text::{
    after_last_char, before_char, before_char_vec, chars_of, contains, contains_exec, dedup,
    eq_chars, find, find_exec, is_ascii_alpha, is_digit, lemma_find_from, push_all, push_str,
    replace_all, replace_vec, rfind, rfind_exec, spec_to_lowercase, starts_with,
    starts_with_exec, str_to_lowercase, string_of, string_views, sub_vec, trim, trim_vec,
    decimal, decimal_vec, one_char, piece_views, contains_piece, strings_of,
};
use crate::pattern::{
    captures, captures_all, group, group_of, group_views, match_views, regex_captures,
    regex_captures_all,
};

verus! {

// ----------------------------------------------------------------------------
// Decoding the link
// ----------------------------------------------------------------------------

/// The code of the first letter of `c`'s case.
pub open spec fn alpha_base(c: char) -> int {
    if 'a' <= c && c <= 'z' {
        97
    } else {
        65
    }
}

/// `c` moved `shift` places back in the alphabet, wrapping around; other
/// characters are kept.
pub open spec fn shift_back(c: char, shift: u8) -> char {
    if is_ascii_alpha(c) {
        (alpha_base(c) + (c as int - alpha_base(c) + 26 - shift) % 26) as char
    } else {
        c
    }
}

/// The shift can be taken from every letter of `text` without going below
/// zero before wrapping (in `u8` arithmetic).
pub open spec fn shift_fits(text: Seq<char>, shift: u8) -> bool {
    forall|i: int| 0 <= i < text.len() && is_ascii_alpha(#[trigger] text[i]) ==> text[i] as int - alpha_base(text[i]) + 26 >= shift
}

/// Every letter of `text` moved `shift` places back in the alphabet.
pub open spec fn spec_caesar(text: Seq<char>, shift: u8) -> Seq<char> {
    text.map_values(|c: char| shift_back(c, shift))
}

/// Undoes a Caesar shift: every ASCII letter moved `shift` places back in
/// its alphabet, wrapping around.
pub fn caesar_cipher(text: &str, shift: u8) -> (r: String)
    requires
        shift_fits(text@, shift),
    ensures
        r@ == spec_caesar(text@, shift),
{
    let v = chars_of(text);
    let mut out: Vec<char> = Vec::new();
    let mut i: usize = 0;
    while i < v.len()
        invariant
            i <= v@.len(),
            v@ == text@,
            shift_fits(text@, shift),
            out@ == spec_caesar(v@.take(i as int), shift),
        decreases v@.len() - i,
    {
        let c = v[i];
        let d = if ('a' <= c && c <= 'z') || ('A' <= c && c <= 'Z') {
            let base: u32 = if 'a' <= c && c <= 'z' {
                97
            } else {
                65
            };
            assert(c as int - alpha_base(c) + 26 >= shift);
            let pos: u32 = (c as u32) - base;
            let np: u32 = (pos + 26 - shift as u32) % 26;
            ((base + np) as u8) as char
        } else {
            c
        };
        out.push(d);
        assert(spec_caesar(v@.take(i + 1), shift) =~= spec_caesar(v@.take(i as int), shift).push(
            shift_back(c, shift),
        ));
        i = i + 1;
    }
    assert(v@.take(v@.len() as int) =~= v@);
    string_of(out.as_slice())
}

/// The result of decoding `text` as standard base64 (with padding): the
/// bytes, or the decoder's message.
pub uninterp spec fn base64_decoded(text: Seq<char>) -> Result<Seq<u8>, Seq<char>>;

/// Decodes `text` with `base64::engine::general_purpose::STANDARD`; an
/// error is given as its message (`to_string`).
///
/// Trusted: the result is named by `base64_decoded`, which nothing here
/// defines.
#[verifier::external_body]
fn base64_decode(text: &str) -> (r: Result<Vec<u8>, String>)
    ensures
        match r {
            Ok(b) => base64_decoded(text@) == Ok::<Seq<u8>, Seq<char>>(b@),
            Err(e) => base64_decoded(text@) == Err::<Seq<u8>, Seq<char>>(e@),
        },
{
    base64::engine::general_purpose::STANDARD.decode(text).map_err(|e| e.to_string())
}

/// The message `String::from_utf8` gives for bytes that are not UTF-8.
pub uninterp spec fn utf8_error_text(bytes: Seq<u8>) -> Seq<char>;

/// Makes a `String` of `bytes` with `String::from_utf8`; an error is given
/// as its message (`to_string`).
///
/// Trusted: std documents that the conversion succeeds exactly when the
/// bytes are valid UTF-8, and then holds the characters they encode; the
/// error's message is named by `utf8_error_text`.
#[verifier::external_body]
fn utf8_text(bytes: Vec<u8>) -> (r: Result<String, String>)
    ensures
        match r {
            Ok(s) => valid_utf8(bytes@) && s@ == decode_utf8(bytes@),
            Err(e) => !valid_utf8(bytes@) && e@ == utf8_error_text(bytes@),
        },
{
    String::from_utf8(bytes).map_err(|e| e.to_string())
}

/// `s` padded with `=` up to a multiple of 4 bytes of UTF-8.
pub open spec fn padded(s: Seq<char>) -> Seq<char> {
    let n = encode_utf8(s).len() as int;
    s + Seq::new(((4 - n % 4) % 4) as nat, |i: int| '=')
}

/// The link decoded bytes give: read as UTF-8, with `https:` put in
/// front when missing; kept only when it names an `.mp4`.
pub open spec fn link_of_bytes(bytes: Seq<u8>) -> Option<Seq<char>> {
    if valid_utf8(bytes) {
        let s = decode_utf8(bytes);
        let link = if starts_with(s, "https:"@) {
            s
        } else {
            "https:"@ + s
        };
        if contains(link, ".mp4"@) {
            Some(link)
        } else {
            None
        }
    } else {
        None
    }
}

/// What one shift gives: the text shifted back, padded and decoded from
/// base64, then read as a link.
pub open spec fn decode_attempt(encoded: Seq<char>, shift: u8) -> Option<Seq<char>> {
    match base64_decoded(padded(spec_caesar(encoded, shift))) {
        Ok(bytes) => link_of_bytes(bytes),
        Err(_) => None,
    }
}

/// The first link found trying the shifts from `shift` up to 26.
pub open spec fn decode_from(encoded: Seq<char>, shift: int) -> Option<Seq<char>>
    decreases 27 - shift,
{
    if shift < 0 || shift > 26 {
        None
    } else {
        match decode_attempt(encoded, shift as u8) {
            Some(l) => Some(l),
            None => decode_from(encoded, shift + 1),
        }
    }
}

proof fn lemma_shift_fits(text: Seq<char>, shift: u8)
    requires
        shift <= 26,
    ensures
        shift_fits(text, shift),
{
    assert forall|i: int| 0 <= i < text.len() && is_ascii_alpha(#[trigger] text[i]) implies text[i] as int
        - alpha_base(text[i]) + 26 >= shift by {}
}

fn utf8_len_mod4(s: &[char]) -> (r: usize)
    ensures
        r == encode_utf8(s@).len() % 4,
{
    let mut rem: usize = 0;
    let mut i: usize = 0;
    assert(s@.take(0) =~= Seq::<char>::empty());
    while i < s.len()
        invariant
            i <= s@.len(),
            rem == encode_utf8(s@.take(i as int)).len() % 4,
        decreases s@.len() - i,
    {
        let w = crate::text::utf8_width(s[i]);
        proof {
            crate::text::lemma_encode_utf8_split(s@.take(i + 1));
            assert(s@.take(i + 1).drop_last() =~= s@.take(i as int));
        }
        rem = (rem + w) % 4;
        i = i + 1;
    }
    assert(s@.take(s@.len() as int) =~= s@);
    rem
}

fn pad_base64(s: String) -> (r: String)
    ensures
        r@ == padded(s@),
{
    let mut v = chars_of(s.as_str());
    let m = utf8_len_mod4(v.as_slice());
    let k: usize = (4 - m) % 4;
    let ghost s0 = v@;
    let mut j: usize = 0;
    while j < k
        invariant
            j <= k,
            k < 4,
            v@ == s0 + Seq::new(j as nat, |i: int| '='),
        decreases k - j,
    {
        v.push('=');
        j = j + 1;
        assert(v@ =~= s0 + Seq::new(j as nat, |i: int| '='));
    }
    string_of(v.as_slice())
}

/// The link a decoded text gives, given what decoding it from base64
/// gave.
pub fn link_from_decoded(decoded: Result<Vec<u8>, String>) -> (r: Option<String>)
    ensures
        match r {
            Some(l) => decoded matches Ok(b) && link_of_bytes(b@) == Some(l@),
            None => match decoded {
                Ok(b) => link_of_bytes(b@) is None,
                Err(_) => true,
            },
        },
{
    let bytes = match decoded {
        Ok(b) => b,
        Err(_) => {
            return None;
        },
    };
    let s = match utf8_text(bytes) {
        Ok(s) => s,
        Err(_) => {
            return None;
        },
    };
    let sv = chars_of(s.as_str());
    let pre = chars_of("https:");
    let link = if starts_with_exec(sv.as_slice(), pre.as_slice()) {
        sv
    } else {
        let mut v = chars_of("https:");
        push_all(&mut v, sv.as_slice());
        v
    };
    let mp4 = chars_of(".mp4");
    if contains_exec(link.as_slice(), mp4.as_slice()) {
        Some(string_of(link.as_slice()))
    } else {
        None
    }
}

/// The video link hidden in an encoded player link: for each shift from 0
/// to 26, the text shifted back, padded to whole base64 groups and decoded;
/// the first result that is UTF-8 and names an `.mp4` (with `https:` put in
/// front when missing).
pub fn decode_src(encoded: &str) -> (r: Option<String>)
    ensures
        match decode_from(encoded@, 0) {
            Some(l) => r matches Some(s) && s@ == l,
            None => r is None,
        },
{
    let mut shift: u8 = 0;
    while shift <= 26
        invariant
            shift <= 27,
            decode_from(encoded@, 0) == decode_from(encoded@, shift as int),
        decreases 27 - shift,
    {
        proof {
            lemma_shift_fits(encoded@, shift);
        }
        let shifted = caesar_cipher(encoded, shift);
        let p = pad_base64(shifted);
        let decoded = base64_decode(p.as_str());
        let got = link_from_decoded(decoded);
        match got {
            Some(l) => {
                return Some(l);
            },
            None => {},
        }
        shift = shift + 1;
    }
    None
}

// ----------------------------------------------------------------------------
// The stream's pieces
// ----------------------------------------------------------------------------

/// The lines of `s`, split at each `\n`.
pub open spec fn split_lines(s: Seq<char>) -> Seq<Seq<char>>
    decreases s.len(),
{
    match find(s, seq!['\n']) {
        Some(i) => {
            proof {
                lemma_find_from(s, seq!['\n'], 0);
            }
            seq![s.take(i)] + split_lines(s.skip(i + 1))
        },
        None => seq![s],
    }
}

/// The folder of a stream's address: the part before its last `/`, or
/// empty.
pub open spec fn stream_base(url: Seq<char>) -> Seq<char> {
    match rfind(url, seq!['/']) {
        Some(i) => url.take(i),
        None => Seq::empty(),
    }
}

/// The piece a playlist line names, when it names one: lines are trimmed;
/// empty lines and `#` comments name none; an address starting with `http`
/// is kept, any other is taken relative to the stream's folder.
pub open spec fn chunk_of(line: Seq<char>, stream: Seq<char>) -> Option<Seq<char>> {
    let t = trim(line);
    if t.len() == 0 || t[0] == '#' {
        None
    } else if starts_with(t, "http"@) {
        Some(t)
    } else {
        Some(stream_base(stream) + seq!['/'] + t)
    }
}

/// The pieces the lines name, in order.
pub open spec fn chunks_of(lines: Seq<Seq<char>>, stream: Seq<char>) -> Seq<Seq<char>>
    decreases lines.len(),
{
    if lines.len() == 0 {
        Seq::empty()
    } else {
        let prev = chunks_of(lines.drop_last(), stream);
        match chunk_of(lines.last(), stream) {
            Some(c) => prev.push(c),
            None => prev,
        }
    }
}

/// The pieces of a stream, from its playlist.
pub open spec fn spec_m3u8_chunks(playlist: Seq<char>, stream: Seq<char>) -> Seq<Seq<char>> {
    chunks_of(split_lines(playlist), stream)
}

fn chunk_of_exec(line: &[char], stream: &[char]) -> (r: Option<Vec<char>>)
    ensures
        match chunk_of(line@, stream@) {
            Some(c) => r matches Some(v) && v@ == c,
            None => r is None,
        },
{
    let t = trim_vec(line);
    if t.len() == 0 || t[0] == '#' {
        return None;
    }
    let http = chars_of("http");
    if starts_with_exec(t.as_slice(), http.as_slice()) {
        return Some(t);
    }
    let slash = one_char('/');
    proof {
        crate::text::lemma_rfind_upto(stream@, seq!['/'], stream@.len() - 1);
    }
    let mut out = match rfind_exec(stream, slash.as_slice()) {
        Some(i) => sub_vec(stream, 0, i),
        None => Vec::new(),
    };
    out.push('/');
    push_all(&mut out, t.as_slice());
    Some(out)
}

/// The pieces of the stream at `stream`, from its playlist: the addresses
/// its non-comment lines name, in order.
pub fn m3u8_chunks(playlist: &str, stream: &str) -> (r: Vec<String>)
    ensures
        string_views(r@) == spec_m3u8_chunks(playlist@, stream@),
{
    let p = chars_of(playlist);
    let s = chars_of(stream);
    let nl = one_char('\n');
    let mut out: Vec<String> = Vec::new();
    let mut rest = p;
    let ghost mut done: Seq<Seq<char>> = Seq::empty();
    loop
        invariant_except_break
            split_lines(playlist@) == done + split_lines(rest@),
        invariant
            nl@ == seq!['\n'],
            s@ == stream@,
            string_views(out@) == chunks_of(done, stream@),
        ensures
            string_views(out@) == chunks_of(split_lines(playlist@), stream@),
        decreases rest@.len(),
    {
        proof {
            lemma_find_from(rest@, seq!['\n'], 0);
        }
        let (line, next) = match find_exec(rest.as_slice(), nl.as_slice()) {
            Some(i) => {
                let n = rest.len();
                (sub_vec(rest.as_slice(), 0, i), Some(sub_vec(rest.as_slice(), i + 1, n)))
            },
            None => (rest, None),
        };
        let ghost before = done;
        proof {
            done = done.push(line@);
            assert(done.drop_last() == before);
        }
        match chunk_of_exec(line.as_slice(), s.as_slice()) {
            Some(c) => {
                let ghost ov = string_views(out@);
                let cs = string_of(c.as_slice());
                out.push(cs);
                assert(string_views(out@) =~= ov.push(cs@));
            },
            None => {},
        }
        match next {
            Some(n) => {
                assert(split_lines(playlist@) =~= done + split_lines(n@));
                rest = n;
            },
            None => {
                assert(split_lines(playlist@) =~= done);
                break;
            },
        }
    }
    out
}

/// The folder name videos are named after: `episode` for an empty name,
/// `.` or `..`.
pub open spec fn spec_episode_folder(name: Seq<char>) -> Seq<char> {
    if name.len() == 0 || name == seq!['.'] || name == seq!['.', '.'] {
        "episode"@
    } else {
        name
    }
}

/// The folder name videos are named after.
pub fn episode_folder(name: &str) -> (r: String)
    ensures
        r@ == spec_episode_folder(name@),
{
    let v = chars_of(name);
    let dot = one_char('.');
    let mut dots = one_char('.');
    dots.push('.');
    assert(dots@ =~= seq!['.', '.']);
    if v.len() == 0 || eq_chars(v.as_slice(), dot.as_slice()) || eq_chars(v.as_slice(), dots.as_slice()) {
        string_of(chars_of("episode").as_slice())
    } else {
        string_of(v.as_slice())
    }
}

/// The file a video is saved as: `<folder>_<n>.mkv`.
pub open spec fn spec_video_file(folder: Seq<char>, n: u64) -> Seq<char> {
    folder + seq!['_'] + decimal(n as nat) + ".mkv"@
}

/// The file the `n`-th video (from 1) is saved as.
pub fn video_file(folder: &str, n: u64) -> (r: String)
    ensures
        r@ == spec_video_file(folder@, n),
{
    let mut v = chars_of(folder);
    v.push('_');
    let d = decimal_vec(n);
    push_all(&mut v, d.as_slice());
    push_str(&mut v, ".mkv");
    string_of(v.as_slice())
}

// ----------------------------------------------------------------------------
// The player's page and script
// ----------------------------------------------------------------------------

/// The type, id and hash in a player address.
pub const PLAYER_PATH: &'static str = "/([^/]+)/(\\d+)/([a-z0-9]+)";

/// The host of an address.
pub const URL_HOST: &'static str = "^https?://([^/]+)";

/// The page's video id.
pub const VIDEO_ID: &'static str = "var\\s+videoId\\s*=\\s*[\"']([^\"']+)[\"']";

/// The page's translation title.
pub const TRANSLATION_TITLE: &'static str = "var\\s+translationTitle\\s*=\\s*[\"']([^\"']+)[\"']";

/// The path of the player's script.
pub const PLAYER_SCRIPT: &'static str = "src=\"/(assets/js/app\\.player_single[^\"]*)\"";

/// The base64 endpoint in the player's script.
pub const ENDPOINT: &'static str = "url:\\s*atob\\([\"']([\\w=]+)[\"']\\)";

/// Player links in a page's text.
pub const PLAYER_LINK: &'static str = "(?:https?:)?//(?:kodikplayer\\.com|kodik\\.cc|kodik\\.info|aniqit\\.com)/[a-z]+/[0-9]+/[a-z0-9]+[^ \\t\\r\\n\"'<>`\\\\]*";

/// The host of a player address, when it has one.
pub open spec fn spec_extract_domain(url: Seq<char>) -> Option<Seq<char>> {
    group(regex_captures(URL_HOST@, url), 1)
}

/// The host of a player address.
pub fn kodik_utils_extract_domain(url: &str) -> (r: Option<String>)
    ensures
        match spec_extract_domain(url@) {
            Some(d) => r matches Some(s) && s@ == d,
            None => r is None,
        },
{
    let m = captures(URL_HOST, url);
    group_of(&m, 1)
}

/// A video to extract: its type, id and hash (from its address) and the
/// host to ask.
pub struct VideoRequest {
    pub v_type: String,
    pub v_id: String,
    pub v_hash: String,
    pub domain: String,
}

/// The request for a player address: the three path parts, with the
/// address's host (`kodikplayer.com` when it has none); an error when the
/// address lacks them. (A match without its three groups, which the
/// pattern cannot produce, counts as none.)
pub open spec fn spec_video_request(url: Seq<char>) -> Result<(Seq<char>, Seq<char>, Seq<char>, Seq<char>), Seq<char>> {
    let m = regex_captures(PLAYER_PATH@, url);
    if m is Some && group(m, 1) is Some && group(m, 2) is Some && group(m, 3) is Some {
        Ok((
            group(m, 1)->0,
            group(m, 2)->0,
            group(m, 3)->0,
            match spec_extract_domain(url) {
                Some(d) => d,
                None => "kodikplayer.com"@,
            },
        ))
    } else {
        Err("Invalid URL format"@)
    }
}

/// The request for a player address.
pub fn video_request(url: &str) -> (r: Result<VideoRequest, String>)
    ensures
        match spec_video_request(url@) {
            Ok((t, i, h, d)) => r matches Ok(q) && q.v_type@ == t && q.v_id@ == i && q.v_hash@ == h && q.domain@ == d,
            Err(e) => r matches Err(m) && m@ == e,
        },
{
    let m = captures(PLAYER_PATH, url);
    let t = group_of(&m, 1);
    let i = group_of(&m, 2);
    let h = group_of(&m, 3);
    match (t, i, h) {
        (Some(v_type), Some(v_id), Some(v_hash)) => {
            let domain = match kodik_utils_extract_domain(url) {
                Some(d) => d,
                None => string_of(chars_of("kodikplayer.com").as_slice()),
            };
            Ok(VideoRequest { v_type, v_id, v_hash, domain })
        },
        _ => Err(string_of(chars_of("Invalid URL format").as_slice())),
    }
}

/// What the player's page tells: the video id, the translation's title,
/// and the address of the player's script.
pub struct PageDetails {
    pub video_id: String,
    pub translation_title: String,
    pub player_url: String,
}

/// What the player's page tells: its video id (else the address's),
/// its translation title (else `unknown`), and the script's address on the
/// player's host; an error when the page names no script.
pub open spec fn spec_page_details(v_id: Seq<char>, domain: Seq<char>, page: Seq<char>) -> Result<(Seq<char>, Seq<char>, Seq<char>), Seq<char>> {
    match group(regex_captures(PLAYER_SCRIPT@, page), 1) {
        None => Err("No player script found"@),
        Some(path) => Ok((
            match group(regex_captures(VIDEO_ID@, page), 1) {
                Some(v) => v,
                None => v_id,
            },
            match group(regex_captures(TRANSLATION_TITLE@, page), 1) {
                Some(t) => t,
                None => "unknown"@,
            },
            "https://"@ + domain + seq!['/'] + path,
        )),
    }
}

/// What the player's page tells.
pub fn page_details(req: &VideoRequest, page: &str) -> (r: Result<PageDetails, String>)
    ensures
        match spec_page_details(req.v_id@, req.domain@, page@) {
            Ok((v, t, u)) => r matches Ok(d) && d.video_id@ == v && d.translation_title@ == t && d.player_url@ == u,
            Err(e) => r matches Err(m) && m@ == e,
        },
{
    let pm = captures(PLAYER_SCRIPT, page);
    let path = match group_of(&pm, 1) {
        Some(p) => p,
        None => {
            return Err(string_of(chars_of("No player script found").as_slice()));
        },
    };
    let vm = captures(VIDEO_ID, page);
    let video_id = match group_of(&vm, 1) {
        Some(v) => v,
        None => string_of(chars_of(req.v_id.as_str()).as_slice()),
    };
    let tm = captures(TRANSLATION_TITLE, page);
    let translation_title = match group_of(&tm, 1) {
        Some(t) => t,
        None => string_of(chars_of("unknown").as_slice()),
    };
    let mut u = chars_of("https://");
    push_str(&mut u, req.domain.as_str());
    u.push('/');
    push_str(&mut u, path.as_str());
    Ok(PageDetails { video_id, translation_title, player_url: string_of(u.as_slice()) })
}

/// The address and form of the request for the video's links: the
/// endpoint the player's script names in base64, on the player's host,
/// with the video's type, id and hash; an error when the script names none
/// or it does not decode to UTF-8 text.
pub open spec fn spec_links_request(req: (Seq<char>, Seq<char>, Seq<char>, Seq<char>), script: Seq<char>) -> Result<(Seq<char>, Seq<(Seq<char>, Seq<char>)>), Seq<char>> {
    match group(regex_captures(ENDPOINT@, script), 1) {
        None => Err("No endpoint found"@),
        Some(b64) => match base64_decoded(b64) {
            Err(e) => Err(e),
            Ok(bytes) => if !valid_utf8(bytes) {
                Err(utf8_error_text(bytes))
            } else {
                Ok((
                    "https://"@ + req.3 + decode_utf8(bytes),
                    seq![
                        ("type"@, req.0),
                        ("id"@, req.1),
                        ("hash"@, req.2),
                        ("bad_user"@, "True"@),
                        ("info"@, "{}"@),
                        ("cdn_is_working"@, "True"@),
                    ],
                ))
            },
        },
    }
}

fn form_pair(a: &str, b: &str) -> (p: (String, String))
    ensures
        p.0@ == a@,
        p.1@ == b@,
{
    (string_of(chars_of(a).as_slice()), string_of(chars_of(b).as_slice()))
}

/// The address and form of the request for the video's links.
pub fn links_request(req: &VideoRequest, script: &str) -> (r: Result<(String, Vec<(String, String)>), String>)
    ensures
        match spec_links_request((req.v_type@, req.v_id@, req.v_hash@, req.domain@), script@) {
            Ok((u, form)) => r matches Ok(x) && x.0@ == u && crate::gelbooru::param_views(x.1@) == form,
            Err(e) => r matches Err(m) && m@ == e,
        },
{
    let em = captures(ENDPOINT, script);
    let b64 = match group_of(&em, 1) {
        Some(b) => b,
        None => {
            return Err(string_of(chars_of("No endpoint found").as_slice()));
        },
    };
    let bytes = match base64_decode(b64.as_str()) {
        Ok(b) => b,
        Err(e) => {
            return Err(e);
        },
    };
    let endpoint = match utf8_text(bytes) {
        Ok(s) => s,
        Err(e) => {
            return Err(e);
        },
    };
    let mut u = chars_of("https://");
    push_str(&mut u, req.domain.as_str());
    push_str(&mut u, endpoint.as_str());
    let mut form: Vec<(String, String)> = Vec::new();
    form.push(form_pair("type", req.v_type.as_str()));
    form.push(form_pair("id", req.v_id.as_str()));
    form.push(form_pair("hash", req.v_hash.as_str()));
    form.push(form_pair("bad_user", "True"));
    form.push(form_pair("info", "{}"));
    form.push(form_pair("cdn_is_working", "True"));
    assert(crate::gelbooru::param_views(form@) =~= seq![
        ("type"@, req.v_type@),
        ("id"@, req.v_id@),
        ("hash"@, req.v_hash@),
        ("bad_user"@, "True"@),
        ("info"@, "{}"@),
        ("cdn_is_working"@, "True"@),
    ]);
    Ok((string_of(u.as_slice()), form))
}

/// The encoded links of a video by quality, as the player's answer gives
/// them.
pub struct KodikLinks {
    pub p720: Option<Vec<String>>,
    pub p480: Option<Vec<String>>,
    pub p360: Option<Vec<String>>,
}

/// The links of one quality.
pub open spec fn quality_links(l: Option<Vec<String>>) -> Seq<Seq<char>> {
    match l {
        Some(v) => string_views(v@),
        None => Seq::empty(),
    }
}

/// The video's address: the first link of the best quality given (720,
/// then 480, then 360), decoded; an error when there is none or it does
/// not decode.
pub open spec fn spec_video_source(links: KodikLinks) -> Result<Seq<char>, Seq<char>> {
    let all = quality_links(links.p720) + quality_links(links.p480) + quality_links(links.p360);
    if all.len() == 0 {
        Err("No links found in response"@)
    } else {
        match decode_from(all[0], 0) {
            Some(l) => Ok(l),
            None => Err("Failed to decode link"@),
        }
    }
}

fn first_link(l: &Option<Vec<String>>) -> (r: Option<String>)
    ensures
        match r {
            Some(s) => quality_links(*l).len() > 0 && s@ == quality_links(*l)[0],
            None => quality_links(*l).len() == 0,
        },
{
    match l {
        Some(v) => {
            if v.len() > 0 {
                Some(v[0].clone())
            } else {
                None
            }
        },
        None => None,
    }
}

/// The video's address, from the player's answer.
pub fn video_source(links: &KodikLinks) -> (r: Result<String, String>)
    ensures
        match spec_video_source(*links) {
            Ok(l) => r matches Ok(s) && s@ == l,
            Err(e) => r matches Err(m) && m@ == e,
        },
{
    let first = match first_link(&links.p720) {
        Some(s) => Some(s),
        None => match first_link(&links.p480) {
            Some(s) => Some(s),
            None => first_link(&links.p360),
        },
    };
    match first {
        None => Err(string_of(chars_of("No links found in response").as_slice())),
        Some(src) => match decode_src(src.as_str()) {
            Some(l) => Ok(l),
            None => Err(string_of(chars_of("Failed to decode link").as_slice())),
        },
    }
}

// ----------------------------------------------------------------------------
// Links on a page
// ----------------------------------------------------------------------------

/// A page's text with JSON-escaped slashes, quotes and `/&?=` turned back
/// into characters, in that order.
pub open spec fn spec_clean_page(text: Seq<char>) -> Seq<char> {
    let a = replace_all(text, "\\/"@, "/"@);
    let b = replace_all(a, "\\\""@, "\""@);
    let c = replace_all(b, "\\u002F"@, "/"@);
    let d = replace_all(c, "\\u0026"@, "&"@);
    let e = replace_all(d, "\\u003F"@, "?"@);
    replace_all(e, "\\u003D"@, "="@)
}

/// A page's text with its JSON escapes turned back into characters.
pub fn clean_page(text: &str) -> (r: Vec<char>)
    ensures
        r@ == spec_clean_page(text@),
{
    let t = chars_of(text);
    let a = replace_vec(t.as_slice(), chars_of("\\/").as_slice(), chars_of("/").as_slice());
    let b = replace_vec(a.as_slice(), chars_of("\\\"").as_slice(), chars_of("\"").as_slice());
    let c = replace_vec(b.as_slice(), chars_of("\\u002F").as_slice(), chars_of("/").as_slice());
    let d = replace_vec(c.as_slice(), chars_of("\\u0026").as_slice(), chars_of("&").as_slice());
    let e = replace_vec(d.as_slice(), chars_of("\\u003F").as_slice(), chars_of("?").as_slice());
    replace_vec(e.as_slice(), chars_of("\\u003D").as_slice(), chars_of("=").as_slice())
}

/// A player link as used: `https:` put in front of a `//` link, and cut at
/// its first `?`.
pub open spec fn normal_link(m: Seq<char>) -> Seq<char> {
    let l = if starts_with(m, "//"@) {
        "https:"@ + m
    } else {
        m
    };
    before_char(l, '?')
}

/// The links the matches (whole-match group) give, in order.
pub open spec fn match_links(ms: Seq<Seq<Option<Seq<char>>>>) -> Seq<Seq<char>>
    decreases ms.len(),
{
    if ms.len() == 0 {
        Seq::empty()
    } else {
        let prev = match_links(ms.drop_last());
        if ms.last().len() > 0 && ms.last()[0] is Some {
            prev.push(normal_link(ms.last()[0]->0))
        } else {
            prev
        }
    }
}

/// The player links on a page, each once, in page order.
pub open spec fn spec_page_links(text: Seq<char>) -> Seq<Seq<char>> {
    dedup(match_links(regex_captures_all(PLAYER_LINK@, spec_clean_page(text))))
}

/// The player links on a page, each once, in page order.
pub fn page_links(text: &str) -> (r: Vec<String>)
    ensures
        string_views(r@) == spec_page_links(text@),
{
    let cleaned = clean_page(text);
    let cs = string_of(cleaned.as_slice());
    let ms = captures_all(PLAYER_LINK, cs.as_str());
    let ghost mv = match_views(ms@);
    let ghost mut done: Seq<Seq<char>> = Seq::empty();
    let mut out: Vec<Vec<char>> = Vec::new();
    let mut i: usize = 0;
    while i < ms.len()
        invariant
            i <= ms@.len(),
            mv == match_views(ms@),
            done == match_links(mv.take(i as int)),
            piece_views(out@) == dedup(done),
        decreases ms@.len() - i,
    {
        assert(mv.take(i + 1).drop_last() =~= mv.take(i as int));
        assert(mv.take(i + 1).last() == group_views(ms@[i as int]@));
        let g = &ms[i];
        if g.len() > 0 {
            match &g[0] {
                Some(m) => {
                    let mc = chars_of(m.as_str());
                    let dslash = chars_of("//");
                    let l = if starts_with_exec(mc.as_slice(), dslash.as_slice()) {
                        let mut v = chars_of("https:");
                        push_all(&mut v, mc.as_slice());
                        v
                    } else {
                        mc
                    };
                    let link = before_char_vec(l.as_slice(), '?');
                    let ghost before = done;
                    proof {
                        done = done.push(link@);
                        assert(done.drop_last() == before);
                    }
                    if !contains_piece(&out, link.as_slice()) {
                        out.push(link);
                        assert(piece_views(out@) =~= dedup(before).push(link@));
                    }
                },
                None => {},
            }
        }
        i = i + 1;
    }
    assert(mv.take(ms@.len() as int) =~= mv);
    strings_of(&out)
}

/// The ASCII digits `s` starts with.
pub open spec fn leading_digit_run(s: Seq<char>) -> Seq<char>
    decreases s.len(),
{
    if s.len() > 0 && is_digit(s[0]) {
        seq![s[0]] + leading_digit_run(s.drop_first())
    } else {
        Seq::empty()
    }
}

/// How the `i`-th link (from 0) is listed: `Episode <n>` with the number
/// after its `episode=` (or `i + 1` when none follows), or `Video <i + 1>`
/// when it has no `episode=`.
pub open spec fn spec_link_label(link: Seq<char>, i: u64) -> Seq<char> {
    match find(link, "episode="@) {
        Some(p) => {
            let num = leading_digit_run(link.skip(p + 8));
            if num.len() == 0 {
                "Episode "@ + decimal(i as nat + 1)
            } else {
                "Episode "@ + num
            }
        },
        None => "Video "@ + decimal(i as nat + 1),
    }
}

/// How the `i`-th link (from 0) is listed.
pub fn link_label(link: &str, i: u64) -> (r: String)
    requires
        i < u64::MAX,
    ensures
        r@ == spec_link_label(link@, i),
{
    let l = chars_of(link);
    let pat = chars_of("episode=");
    proof {
        lemma_find_from(l@, "episode="@, 0);
        reveal_strlit("episode=");
    }
    match find_exec(l.as_slice(), pat.as_slice()) {
        Some(p) => {
            let n = l.len();
            let mut num: Vec<char> = Vec::new();
            let mut j = p + 8;
            let ghost tail = l@.skip(p + 8);
            assert(tail.skip(0) =~= tail);
            while j < n && '0' <= l[j] && l[j] <= '9'
                invariant
                    p + 8 <= j <= n,
                    n == l@.len(),
                    tail == l@.skip(p + 8),
                    leading_digit_run(tail) == num@ + leading_digit_run(l@.skip(j as int)),
                decreases n - j,
            {
                assert(l@.skip(j as int)[0] == l@[j as int]);
                assert(l@.skip(j as int).drop_first() =~= l@.skip(j + 1));
                num.push(l[j]);
                j = j + 1;
                assert(leading_digit_run(tail) =~= num@ + leading_digit_run(l@.skip(j as int)));
            }
            assert(leading_digit_run(l@.skip(j as int)) =~= Seq::<char>::empty());
            assert(num@ =~= leading_digit_run(tail));
            let mut out = chars_of("Episode ");
            if num.len() == 0 {
                let d = decimal_vec(i + 1);
                push_all(&mut out, d.as_slice());
            } else {
                push_all(&mut out, num.as_slice());
            }
            string_of(out.as_slice())
        },
        None => {
            let mut out = chars_of("Video ");
            let d = decimal_vec(i + 1);
            push_all(&mut out, d.as_slice());
            string_of(out.as_slice())
        },
    }
}

/// Whether the answer to "Download these items?" agrees: `y` or `yes`,
/// trimmed and in any case.
pub open spec fn spec_accepts(input: Seq<char>) -> bool {
    let t = spec_to_lowercase(trim(input));
    t == seq!['y'] || t == seq!['y', 'e', 's']
}

/// Whether the answer to "Download these items?" agrees.
pub fn accepts(input: &str) -> (b: bool)
    ensures
        b == spec_accepts(input@),
{
    let t = crate::text::trim_str(input);
    let l = str_to_lowercase(t.as_str());
    let v = chars_of(l.as_str());
    let y = one_char('y');
    let mut yes = one_char('y');
    yes.push('e');
    yes.push('s');
    assert(yes@ =~= seq!['y', 'e', 's']);
    eq_chars(v.as_slice(), y.as_slice()) || eq_chars(v.as_slice(), yes.as_slice())
}

} // verus!
