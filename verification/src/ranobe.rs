//! desu.uno ranobe chapters: naming them, and turning a chapter's content
//! items into the book's XHTML and the plain-text copy.
use vstd::prelude::*;
use crate::text::{
    before_char, before_char_vec, chars_of, decimal, decimal_vec, eq_chars, one_char,
    padded_decimal_vec, push_all, push_str, string_of, trim, trim_vec, zero_pad,
};
use crate::desu::{
    parse_slug_from_view_url, spec_parse_slug_from_view_url, RanobeChapterContentItem,
};
use crate::epub::{clean_xhtml, html_to_plain_text, spec_clean_xhtml, spec_html_to_plain_text};
use crate::http::{ext_or_jpg, spec_ext_or_jpg};
use crate::order::{is_stable_order, stable_order};

verus! {

// ----------------------------------------------------------------------------
// Names
// ----------------------------------------------------------------------------

/// `s`, or `0` when it is empty.
pub open spec fn or_zero(s: Seq<char>) -> Seq<char> {
    if s.len() == 0 {
        seq!['0']
    } else {
        s
    }
}

fn or_zero_vec(s: &str) -> (v: Vec<char>)
    ensures
        v@ == or_zero(s@),
{
    let v = chars_of(s);
    if v.len() == 0 {
        one_char('0')
    } else {
        v
    }
}

/// The file name (without extension) a ranobe chapter is saved under:
/// `vol<volume>_ch<number>`, a missing volume or number written as 0.
pub open spec fn spec_ranobe_file_stem(volume: Seq<char>, number: Seq<char>) -> Seq<char> {
    "vol"@ + or_zero(volume) + "_ch"@ + or_zero(number)
}

/// The file name (without extension) of a ranobe chapter.
pub fn ranobe_file_stem(volume: &str, number: &str) -> (r: String)
    ensures
        r@ == spec_ranobe_file_stem(volume@, number@),
{
    let mut v: Vec<char> = Vec::new();
    push_str(&mut v, "vol");
    let vol = or_zero_vec(volume);
    push_all(&mut v, vol.as_slice());
    push_str(&mut v, "_ch");
    let num = or_zero_vec(number);
    push_all(&mut v, num.as_slice());
    string_of(v.as_slice())
}

/// A chapter's own title: the one the chapter's content gives, else the one
/// in the chapter list, trimmed; empty when neither is given.
pub open spec fn spec_chapter_title(detail: Option<Seq<char>>, listed: Option<Seq<char>>) -> Seq<char> {
    trim(
        match detail {
            Some(t) => t,
            None => match listed {
                Some(t) => t,
                None => Seq::empty(),
            },
        },
    )
}

/// A chapter's own title, trimmed.
pub fn chapter_title(detail: Option<&str>, listed: Option<&str>) -> (r: String)
    ensures
        r@ == spec_chapter_title(
            match detail {
                Some(t) => Some(t@),
                None => None,
            },
            match listed {
                Some(t) => Some(t@),
                None => None,
            },
        ),
{
    let t = match detail {
        Some(t) => chars_of(t),
        None => match listed {
            Some(t) => chars_of(t),
            None => Vec::new(),
        },
    };
    let v = trim_vec(t.as_slice());
    string_of(v.as_slice())
}

/// The heading a ranobe chapter is given: `Глава <n>` or
/// `Том <v> Глава <n>` (the volume left out when it is missing or 0),
/// followed by `. <title>` when the chapter has a title.
pub open spec fn spec_display_title(volume: Seq<char>, number: Seq<char>, title: Seq<char>) -> Seq<char> {
    let v = or_zero(volume);
    let n = or_zero(number);
    let head = if v == seq!['0'] {
        "Глава "@ + n
    } else {
        "Том "@ + v + " Глава "@ + n
    };
    if title.len() == 0 {
        head
    } else {
        head + ". "@ + title
    }
}

/// The heading of a ranobe chapter.
pub fn display_title(volume: &str, number: &str, title: &str) -> (r: String)
    ensures
        r@ == spec_display_title(volume@, number@, title@),
{
    let vol = or_zero_vec(volume);
    let num = or_zero_vec(number);
    let zero = one_char('0');
    let mut v: Vec<char> = Vec::new();
    if eq_chars(vol.as_slice(), zero.as_slice()) {
        push_str(&mut v, "Глава ");
        push_all(&mut v, num.as_slice());
    } else {
        push_str(&mut v, "Том ");
        push_all(&mut v, vol.as_slice());
        push_str(&mut v, " Глава ");
        push_all(&mut v, num.as_slice());
    }
    if !title.is_empty() {
        push_str(&mut v, ". ");
        push_str(&mut v, title);
    }
    string_of(v.as_slice())
}

/// The identifier a ranobe chapter's book is given.
pub open spec fn spec_ranobe_urn(ranobe_id: u64, chapter_id: u64) -> Seq<char> {
    "urn:desu:ranobe:"@ + decimal(ranobe_id as nat) + seq![':'] + decimal(chapter_id as nat)
}

/// The identifier of a ranobe chapter's book, `urn:desu:ranobe:<id>:<chapter>`.
pub fn ranobe_urn(ranobe_id: u64, chapter_id: u64) -> (r: String)
    ensures
        r@ == spec_ranobe_urn(ranobe_id, chapter_id),
{
    let mut v: Vec<char> = Vec::new();
    push_str(&mut v, "urn:desu:ranobe:");
    let a = decimal_vec(ranobe_id);
    push_all(&mut v, a.as_slice());
    v.push(':');
    let b = decimal_vec(chapter_id);
    push_all(&mut v, b.as_slice());
    string_of(v.as_slice())
}

/// The `slug.id` a ranobe is known by: the one in the first chapter's
/// address when it has one, else the given slug and id joined by a dot, or
/// the id alone when the slug is the id itself.
pub open spec fn spec_ranobe_slug(first_view_url: Option<Seq<char>>, slug: Seq<char>, id: u64) -> Seq<char> {
    let from_url = match first_view_url {
        Some(u) => spec_parse_slug_from_view_url(u),
        None => None,
    };
    match from_url {
        Some(s) => s,
        None => if slug != decimal(id as nat) {
            slug + seq!['.'] + decimal(id as nat)
        } else {
            decimal(id as nat)
        },
    }
}

/// The `slug.id` a ranobe is known by.
pub fn ranobe_slug(first_view_url: Option<&str>, slug: &str, id: u64) -> (r: String)
    ensures
        r@ == spec_ranobe_slug(
            match first_view_url {
                Some(u) => Some(u@),
                None => None,
            },
            slug@,
            id,
        ),
{
    let from_url = match first_view_url {
        Some(u) => parse_slug_from_view_url(u),
        None => None,
    };
    match from_url {
        Some(s) => s,
        None => {
            let digits = decimal_vec(id);
            let sv = chars_of(slug);
            if !eq_chars(sv.as_slice(), digits.as_slice()) {
                let mut v = sv;
                v.push('.');
                push_all(&mut v, digits.as_slice());
                string_of(v.as_slice())
            } else {
                string_of(digits.as_slice())
            }
        },
    }
}

// ----------------------------------------------------------------------------
// Content
// ----------------------------------------------------------------------------

/// The key a content item is ordered by: its position, 0 when missing.
pub open spec fn position_key(item: RanobeChapterContentItem) -> i128 {
    match item.position {
        Some(p) => p as i128,
        None => 0,
    }
}

/// The order the content items are laid out in: by position, a stable sort.
pub fn content_order(items: &Vec<RanobeChapterContentItem>) -> (r: Vec<usize>)
    ensures
        is_stable_order(items@.map_values(|it: RanobeChapterContentItem| position_key(it)), r@),
{
    let mut keys: Vec<i128> = Vec::new();
    let mut i: usize = 0;
    while i < items.len()
        invariant
            i <= items@.len(),
            keys@ == items@.take(i as int).map_values(|it: RanobeChapterContentItem| position_key(it)),
        decreases items@.len() - i,
    {
        let k: i128 = match items[i].position {
            Some(p) => p as i128,
            None => 0,
        };
        keys.push(k);
        assert(items@.take(i + 1).map_values(|it: RanobeChapterContentItem| position_key(it)) =~= items@.take(
            i as int,
        ).map_values(|it: RanobeChapterContentItem| position_key(it)).push(position_key(items@[i as int])));
        i = i + 1;
    }
    assert(items@.take(items@.len() as int) =~= items@);
    stable_order(keys.as_slice())
}

/// The three decimal digits (at least) of an image's number.
pub open spec fn image_number(n: nat) -> Seq<char> {
    zero_pad(decimal(n), 3)
}

/// An illustration about to be fetched: its number and the names it will
/// be stored and referred to under.
pub struct ImageSlot {
    pub number: u64,
    pub ext: String,
    pub id: String,
    pub rel_path: String,
}

/// The name of illustration `n`, `img_<nnn>`.
pub open spec fn spec_image_id(n: nat) -> Seq<char> {
    "img_"@ + image_number(n)
}

/// Where illustration `n` is stored in the book, `images/img_<nnn>.<ext>`.
pub open spec fn spec_image_path(n: nat, ext: Seq<char>) -> Seq<char> {
    "images/"@ + spec_image_id(n) + seq!['.'] + ext
}

/// How an illustration is mentioned in the plain-text copy, by its name
/// and extension.
pub open spec fn spec_image_note(id: Seq<char>, ext: Seq<char>) -> Seq<char> {
    "[Иллюстрация: "@ + id + seq!['.'] + ext + seq![']']
}

/// How an illustration is shown in the book.
pub open spec fn spec_image_block(rel_path: Seq<char>) -> Seq<char> {
    "<div class=\"chapter-image\"><img src=\""@ + rel_path + "\" alt=\"\" /></div>"@
}

/// The parts of `parts` joined by `sep`.
pub open spec fn join(parts: Seq<Seq<char>>, sep: Seq<char>) -> Seq<char>
    decreases parts.len(),
{
    if parts.len() == 0 {
        Seq::empty()
    } else if parts.len() == 1 {
        parts[0]
    } else {
        join(parts.drop_last(), sep) + sep + parts.last()
    }
}

/// A ranobe chapter's content, built item by item: the book's XHTML, the
/// paragraphs of the plain-text copy, the illustrations fetched (name, path
/// in the book, bytes), how many illustrations were met, and whether one
/// could not be fetched.
pub struct RanobeText {
    pub content_html: Vec<char>,
    pub plain_parts: Vec<String>,
    pub images: Vec<(String, String, Vec<u8>)>,
    pub img_counter: u64,
    pub has_error: bool,
}

/// The texts of the plain-text paragraphs.
pub open spec fn part_views(parts: Seq<String>) -> Seq<Seq<char>> {
    parts.map_values(|s: String| s@)
}

impl RanobeText {
    /// Nothing yet.
    pub fn new() -> (r: RanobeText)
        ensures
            r.content_html@ == Seq::<char>::empty(),
            r.plain_parts@ == Seq::<String>::empty(),
            r.images@ == Seq::<(String, String, Vec<u8>)>::empty(),
            r.img_counter == 0,
            !r.has_error,
    {
        RanobeText {
            content_html: Vec::new(),
            plain_parts: Vec::new(),
            images: Vec::new(),
            img_counter: 0,
            has_error: false,
        }
    }

    /// Adds a text item: its cleaned XHTML and a line break go into the
    /// book, and its plain text, when not empty, becomes a paragraph.
    pub fn add_text(&mut self, html: &str)
        ensures
            final(self).content_html@ == old(self).content_html@ + spec_clean_xhtml(html@) + seq!['\n'],
            part_views(final(self).plain_parts@) == if spec_html_to_plain_text(html@).len() == 0 {
                part_views(old(self).plain_parts@)
            } else {
                part_views(old(self).plain_parts@).push(spec_html_to_plain_text(html@))
            },
            final(self).images@ == old(self).images@,
            final(self).img_counter == old(self).img_counter,
            final(self).has_error == old(self).has_error,
    {
        let cleaned = clean_xhtml(html);
        push_str(&mut self.content_html, cleaned.as_str());
        self.content_html.push('\n');
        let plain = html_to_plain_text(html);
        if !plain.as_str().is_empty() {
            let ghost before = self.plain_parts@;
            self.plain_parts.push(plain);
            assert(part_views(self.plain_parts@) =~= part_views(before).push(plain@));
        }
    }

    /// Meets an image item with address `url`: an empty address is passed
    /// over; otherwise the illustration gets the next number, and the names
    /// it will go under are given back for it to be fetched.
    pub fn begin_image(&mut self, url: &str) -> (slot: Option<ImageSlot>)
        requires
            old(self).img_counter < u64::MAX,
        ensures
            final(self).content_html@ == old(self).content_html@,
            final(self).plain_parts@ == old(self).plain_parts@,
            final(self).images@ == old(self).images@,
            final(self).has_error == old(self).has_error,
            url@.len() == 0 ==> slot is None && final(self).img_counter == old(self).img_counter,
            url@.len() != 0 ==> {
                &&& final(self).img_counter == old(self).img_counter + 1
                &&& slot matches Some(s) && {
                    &&& s.number == final(self).img_counter
                    &&& s.ext@ == spec_ext_or_jpg(before_char(url@, '?'))
                    &&& s.id@ == spec_image_id(s.number as nat)
                    &&& s.rel_path@ == spec_image_path(s.number as nat, s.ext@)
                }
            },
    {
        if url.is_empty() {
            return None;
        }
        self.img_counter = self.img_counter + 1;
        let n = self.img_counter;
        let u = chars_of(url);
        let clean = before_char_vec(u.as_slice(), '?');
        let clean_s = string_of(clean.as_slice());
        let ext = ext_or_jpg(clean_s.as_str());
        let digits = padded_decimal_vec(n, 3);
        let mut id: Vec<char> = Vec::new();
        push_str(&mut id, "img_");
        push_all(&mut id, digits.as_slice());
        let mut path: Vec<char> = Vec::new();
        push_str(&mut path, "images/");
        push_all(&mut path, id.as_slice());
        path.push('.');
        push_str(&mut path, ext.as_str());
        Some(ImageSlot { number: n, ext, id: string_of(id.as_slice()), rel_path: string_of(path.as_slice()) })
    }

    /// Records how fetching an illustration went: when its bytes came, it is
    /// shown in the book and kept; when not, the chapter is marked as having
    /// an error. Either way the plain-text copy mentions it.
    pub fn finish_image(&mut self, slot: ImageSlot, bytes: Option<Vec<u8>>)
        ensures
            final(self).img_counter == old(self).img_counter,
            part_views(final(self).plain_parts@) == part_views(old(self).plain_parts@).push(
                spec_image_note(slot.id@, slot.ext@),
            ),
            match bytes {
                Some(b) => {
                    &&& final(self).content_html@ == old(self).content_html@ + spec_image_block(slot.rel_path@) + seq!['\n']
                    &&& final(self).images@ == old(self).images@.push((slot.id, slot.rel_path, b))
                    &&& final(self).has_error == old(self).has_error
                },
                None => {
                    &&& final(self).content_html@ == old(self).content_html@
                    &&& final(self).images@ == old(self).images@
                    &&& final(self).has_error
                },
            },
    {
        let ghost old_parts = self.plain_parts@;
        let mut note: Vec<char> = Vec::new();
        push_str(&mut note, "[Иллюстрация: ");
        push_str(&mut note, slot.id.as_str());
        note.push('.');
        push_str(&mut note, slot.ext.as_str());
        note.push(']');
        assert(note@ =~= spec_image_note(slot.id@, slot.ext@));
        match bytes {
            Some(b) => {
                push_str(&mut self.content_html, "<div class=\"chapter-image\"><img src=\"");
                push_str(&mut self.content_html, slot.rel_path.as_str());
                push_str(&mut self.content_html, "\" alt=\"\" /></div>");
                self.content_html.push('\n');
                self.images.push((slot.id, slot.rel_path, b));
            },
            None => {
                self.has_error = true;
            },
        }
        let note_s = string_of(note.as_slice());
        self.plain_parts.push(note_s);
        assert(part_views(self.plain_parts@) =~= part_views(old_parts).push(note_s@));
    }

    /// The plain-text copy of the chapter: its heading, a blank line, and
    /// the paragraphs separated by blank lines.
    pub fn plain_text(&self, title: &str) -> (r: String)
        ensures
            r@ == title@ + "\n\n"@ + join(part_views(self.plain_parts@), "\n\n"@),
    {
        let mut v: Vec<char> = Vec::new();
        push_str(&mut v, title);
        push_str(&mut v, "\n\n");
        let ghost head = v@;
        let mut i: usize = 0;
        while i < self.plain_parts.len()
            invariant
                i <= self.plain_parts@.len(),
                v@ == head + join(part_views(self.plain_parts@).take(i as int), "\n\n"@),
            decreases self.plain_parts@.len() - i,
        {
            let ghost ps = part_views(self.plain_parts@);
            assert(ps.take(i + 1).drop_last() =~= ps.take(i as int));
            assert(ps.take(i + 1).last() == self.plain_parts@[i as int]@);
            if i > 0 {
                push_str(&mut v, "\n\n");
            } else {
                assert(ps.take(1) =~= seq![ps[0]]);
                assert(ps.take(0) =~= Seq::<Seq<char>>::empty());
            }
            push_str(&mut v, self.plain_parts[i].as_str());
            i = i + 1;
        }
        assert(part_views(self.plain_parts@).take(self.plain_parts@.len() as int) =~= part_views(
            self.plain_parts@,
        ));
        string_of(v.as_slice())
    }

    /// The book's XHTML so far.
    pub fn content(&self) -> (r: String)
        ensures
            r@ == self.content_html@,
    {
        string_of(self.content_html.as_slice())
    }
}

/// What a content item asks for: a text item is added at once; an image
/// item with an address gives back the illustration to fetch; anything else
/// is passed over.
pub fn add_item(text: &mut RanobeText, item: RanobeChapterContentItem) -> (slot: Option<ImageSlot>)
    requires
        old(text).img_counter < u64::MAX,
    ensures
        item.item_type@ == "text"@ ==> slot is None && match item.html {
            Some(h) => final(text).content_html@ == old(text).content_html@ + spec_clean_xhtml(h@) + seq!['\n']
                && part_views(final(text).plain_parts@) == if spec_html_to_plain_text(h@).len() == 0 {
                part_views(old(text).plain_parts@)
            } else {
                part_views(old(text).plain_parts@).push(spec_html_to_plain_text(h@))
            },
            None => *final(text) == *old(text),
        },
        item.item_type@ == "image"@ ==> (item.url is None ==> slot is None && *final(text) == *old(text)),
        item.item_type@ == "image"@ ==> (item.url matches Some(u) ==> (slot is Some <==> u@.len() != 0)),
        item.item_type@ == "image"@ ==> (item.url matches Some(u) ==> final(text).img_counter == if u@.len() == 0 {
                old(text).img_counter
            } else {
                (old(text).img_counter + 1) as u64
            }),
        item.item_type@ == "image"@ ==> (item.url matches Some(u) ==> (slot matches Some(s) ==> s.rel_path@
                == spec_image_path(s.number as nat, s.ext@) && s.ext@ == spec_ext_or_jpg(before_char(u@, '?')))),
        item.item_type@ != "text"@ && item.item_type@ != "image"@ ==> slot is None && *final(text) == *old(text),
{
    proof {
        reveal_strlit("text");
        reveal_strlit("image");
        assert("image"@ != "text"@) by {
            assert("image"@.len() != "text"@.len());
        }
    }
    let kind = chars_of(item.item_type.as_str());
    let text_kind = chars_of("text");
    let image_kind = chars_of("image");
    if eq_chars(kind.as_slice(), text_kind.as_slice()) {
        match item.html {
            Some(h) => text.add_text(h.as_str()),
            None => {},
        }
        None
    } else if eq_chars(kind.as_slice(), image_kind.as_slice()) {
        match item.url {
            Some(u) => text.begin_image(u.as_str()),
            None => None,
        }
    } else {
        None
    }
}

} // verus!
