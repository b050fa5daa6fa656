//! A JSON document as plain values, and the lookups the services' answers
//! are read with.
//!
//! Looking up a missing field or reading a value of another kind gives
//! `None`, as indexing a document and asking for a string, array or integer
//! does.
use vstd::prelude::*;
use crate::text::{decimal_value, parse_bounded, chars_of, string_of, push_str, push_all};

verus! {

/// A JSON value. A number is held as it is printed; an object keeps its
/// members in order.
#[derive(Debug)]
pub enum JsonValue {
    Null,
    Bool(bool),
    Number(String),
    Str(String),
    Array(Vec<JsonValue>),
    Object(Vec<(String, JsonValue)>),
}

/// The value of the first member named `key`.
pub open spec fn member(entries: Seq<(String, JsonValue)>, key: Seq<char>) -> Option<JsonValue>
    decreases entries.len(),
{
    if entries.len() == 0 {
        None
    } else if entries[0].0@ == key {
        Some(entries[0].1)
    } else {
        member(entries.drop_first(), key)
    }
}

/// The member `key` of `v`, when `v` is an object that has one.
pub open spec fn get(v: Option<JsonValue>, key: Seq<char>) -> Option<JsonValue> {
    match v {
        Some(JsonValue::Object(es)) => member(es@, key),
        _ => None,
    }
}

/// The text of `v`, when it is a string.
pub open spec fn as_str(v: Option<JsonValue>) -> Option<Seq<char>> {
    match v {
        Some(JsonValue::Str(s)) => Some(s@),
        _ => None,
    }
}

/// The elements of `v`, when it is an array.
pub open spec fn as_array(v: Option<JsonValue>) -> Option<Seq<JsonValue>> {
    match v {
        Some(JsonValue::Array(a)) => Some(a@),
        _ => None,
    }
}

/// The members of `v`, when it is an object.
pub open spec fn as_object(v: Option<JsonValue>) -> Option<Seq<(String, JsonValue)>> {
    match v {
        Some(JsonValue::Object(es)) => Some(es@),
        _ => None,
    }
}

/// The integer a decimal text writes, with an optional sign, if it fits in
/// an `i64` (as `str::parse::<i64>`).
pub open spec fn parse_i64_text(t: Seq<char>) -> Option<int> {
    if t.len() > 0 && t[0] == '-' {
        let body = t.drop_first();
        if body.len() > 0 && body[0] == '+' {
            None
        } else {
            match decimal_value(body) {
                Some(n) => if n <= 0x8000_0000_0000_0000 {
                    Some(-n)
                } else {
                    None
                },
                None => None,
            }
        }
    } else {
        match parse_bounded(t, 0x7fff_ffff_ffff_ffff) {
            Some(n) => Some(n as int),
            None => None,
        }
    }
}

/// The value of `v` as an `i64`, when it is a number written as one.
pub open spec fn as_i64(v: Option<JsonValue>) -> Option<int> {
    match v {
        Some(JsonValue::Number(t)) => parse_i64_text(t@),
        _ => None,
    }
}

/// A reference seen as the value it points to.
pub open spec fn deref_opt(r: Option<&JsonValue>) -> Option<JsonValue> {
    match r {
        Some(x) => Some(*x),
        None => None,
    }
}

impl JsonValue {
    /// The member `key`, when this is an object that has one.
    pub fn field(&self, key: &str) -> (r: Option<&JsonValue>)
        ensures
            deref_opt(r) == get(Some(*self), key@),
    {
        match self {
            JsonValue::Object(es) => {
                let mut i: usize = 0;
                assert(es@.skip(0) == es@);
                while i < es.len()
                    invariant
                        i <= es@.len(),
                        get(Some(*self), key@) == member(es@, key@),
                        member(es@, key@) == member(es@.skip(i as int), key@),
                    decreases es@.len() - i,
                {
                    assert(es@.skip(i as int)[0] == es@[i as int]);
                    assert(es@.skip(i as int).drop_first() == es@.skip(i + 1));
                    let name = chars_of(es[i].0.as_str());
                    let wanted = chars_of(key);
                    if crate::text::eq_chars(name.as_slice(), wanted.as_slice()) {
                        assert(es@[i as int].0@ == key@);
                        return Some(&es[i].1);
                    }
                    i = i + 1;
                }
                None
            },
            _ => None,
        }
    }
}

/// The member `key` of `v`, when `v` is an object that has one.
pub fn get_in<'a>(v: Option<&'a JsonValue>, key: &str) -> (r: Option<&'a JsonValue>)
    ensures
        deref_opt(r) == get(deref_opt(v), key@),
{
    match v {
        Some(x) => x.field(key),
        None => None,
    }
}

/// The text of `v`, when it is a string.
pub fn str_in(v: Option<&JsonValue>) -> (r: Option<String>)
    ensures
        match r {
            Some(s) => as_str(deref_opt(v)) == Some(s@),
            None => as_str(deref_opt(v)) is None,
        },
{
    match v {
        Some(JsonValue::Str(s)) => Some(s.clone()),
        _ => None,
    }
}

/// The elements of `v`, when it is an array.
pub fn array_in<'a>(v: Option<&'a JsonValue>) -> (r: Option<&'a Vec<JsonValue>>)
    ensures
        match r {
            Some(a) => as_array(deref_opt(v)) == Some(a@),
            None => as_array(deref_opt(v)) is None,
        },
{
    match v {
        Some(JsonValue::Array(a)) => Some(a),
        _ => None,
    }
}

/// The members of `v`, when it is an object.
pub fn object_in<'a>(v: Option<&'a JsonValue>) -> (r: Option<&'a Vec<(String, JsonValue)>>)
    ensures
        match r {
            Some(es) => as_object(deref_opt(v)) == Some(es@),
            None => as_object(deref_opt(v)) is None,
        },
{
    match v {
        Some(JsonValue::Object(es)) => Some(es),
        _ => None,
    }
}

/// Reads a decimal text with an optional sign as an `i64`.
pub fn parse_i64(t: &str) -> (r: Option<i64>)
    ensures
        match r {
            Some(n) => parse_i64_text(t@) == Some(n as int),
            None => parse_i64_text(t@) is None,
        },
{
    let v = chars_of(t);
    if v.len() > 0 && v[0] == '-' {
        let body = crate::text::sub_vec(v.as_slice(), 1, v.len());
        assert(body@ == t@.drop_first());
        if body.len() > 0 && body[0] == '+' {
            return None;
        }
        match crate::text::parse_decimal(body.as_slice(), 0x8000_0000_0000_0000u64) {
            Some(n) => {
                if n == 0x8000_0000_0000_0000u64 {
                    Some(i64::MIN)
                } else {
                    let k: i64 = n as i64;
                    Some(-k)
                }
            },
            None => None,
        }
    } else {
        match crate::text::parse_decimal(v.as_slice(), 0x7fff_ffff_ffff_ffffu64) {
            Some(n) => Some(n as i64),
            None => None,
        }
    }
}

/// The value of `v` as an `i64`, when it is a number written as one.
pub fn i64_in(v: Option<&JsonValue>) -> (r: Option<i64>)
    ensures
        match r {
            Some(n) => as_i64(deref_opt(v)) == Some(n as int),
            None => as_i64(deref_opt(v)) is None,
        },
{
    match v {
        Some(JsonValue::Number(t)) => parse_i64(t.as_str()),
        _ => None,
    }
}

// ----------------------------------------------------------------------------
// Printing
// ----------------------------------------------------------------------------

/// The lowercase hexadecimal digit for `d` (below 16).
pub open spec fn hex_digit(d: int) -> char {
    if d < 10 {
        (48 + d) as char
    } else {
        (87 + d) as char
    }
}

/// How a character is written inside a JSON string: quote and backslash
/// escaped, control characters by their short escape or as `\u00XX`, all
/// else as is.
pub open spec fn escape_char(c: char) -> Seq<char> {
    if c == '"' {
        seq!['\\', '"']
    } else if c == '\\' {
        seq!['\\', '\\']
    } else if c == '\u{8}' {
        seq!['\\', 'b']
    } else if c == '\t' {
        seq!['\\', 't']
    } else if c == '\n' {
        seq!['\\', 'n']
    } else if c == '\u{c}' {
        seq!['\\', 'f']
    } else if c == '\r' {
        seq!['\\', 'r']
    } else if (c as u32) < 0x20 {
        seq!['\\', 'u', '0', '0', hex_digit(((c as u32) / 16) as int), hex_digit(((c as u32) % 16) as int)]
    } else {
        seq![c]
    }
}

/// The characters of `s`, each escaped.
pub open spec fn escaped(s: Seq<char>) -> Seq<char>
    decreases s.len(),
{
    if s.len() == 0 {
        Seq::empty()
    } else {
        escaped(s.drop_last()) + escape_char(s.last())
    }
}

/// `s` written as a JSON string.
pub open spec fn quoted(s: Seq<char>) -> Seq<char> {
    seq!['"'] + escaped(s) + seq!['"']
}

/// The compact JSON text of `v`: no spaces, members as `"key":value`,
/// elements and members separated by commas.
pub open spec fn json_text(v: JsonValue) -> Seq<char>
    decreases v, 0int,
{
    match v {
        JsonValue::Null => seq!['n', 'u', 'l', 'l'],
        JsonValue::Bool(b) => if b {
            seq!['t', 'r', 'u', 'e']
        } else {
            seq!['f', 'a', 'l', 's', 'e']
        },
        JsonValue::Number(t) => t@,
        JsonValue::Str(s) => quoted(s@),
        JsonValue::Array(items) => seq!['['] + items_text(items@, 0) + seq![']'],
        JsonValue::Object(es) => seq!['{'] + members_text(es@, 0) + seq!['}'],
    }
}

/// The separator written before element `i` of a list.
pub open spec fn sep(i: int) -> Seq<char> {
    if i > 0 {
        seq![',']
    } else {
        Seq::empty()
    }
}

/// The elements of `s` from `i` on, written as in an array.
pub open spec fn items_text(s: Seq<JsonValue>, i: int) -> Seq<char>
    decreases s, s.len() - i,
{
    if 0 <= i < s.len() {
        sep(i) + json_text(s[i]) + items_text(s, i + 1)
    } else {
        Seq::empty()
    }
}

/// The members of `es` from `i` on, written as in an object.
pub open spec fn members_text(es: Seq<(String, JsonValue)>, i: int) -> Seq<char>
    decreases es, es.len() - i,
{
    if 0 <= i < es.len() {
        sep(i) + quoted(es[i].0@) + seq![':'] + json_text(es[i].1) + members_text(es, i + 1)
    } else {
        Seq::empty()
    }
}

fn hex_char(d: u32) -> (c: char)
    requires
        d < 16,
    ensures
        c == hex_digit(d as int),
{
    let b: u8 = if d < 10 {
        (48 + d) as u8
    } else {
        (87 + d) as u8
    };
    b as char
}

/// Appends `s` written as a JSON string.
fn write_quoted(s: &str, out: &mut Vec<char>)
    ensures
        final(out)@ == old(out)@ + quoted(s@),
{
    let cs = chars_of(s);
    out.push('"');
    let ghost start = out@;
    let mut i: usize = 0;
    while i < cs.len()
        invariant
            i <= cs@.len(),
            cs@ == s@,
            out@ == start + escaped(cs@.take(i as int)),
        decreases cs@.len() - i,
    {
        let c = cs[i];
        assert(cs@.take(i + 1).drop_last() == cs@.take(i as int));
        assert(cs@.take(i + 1).last() == c);
        let ghost before = out@;
        if c == '"' {
            out.push('\\');
            out.push('"');
        } else if c == '\\' {
            out.push('\\');
            out.push('\\');
        } else if c == '\u{8}' {
            out.push('\\');
            out.push('b');
        } else if c == '\t' {
            out.push('\\');
            out.push('t');
        } else if c == '\n' {
            out.push('\\');
            out.push('n');
        } else if c == '\u{c}' {
            out.push('\\');
            out.push('f');
        } else if c == '\r' {
            out.push('\\');
            out.push('r');
        } else if (c as u32) < 0x20 {
            let n = c as u32;
            out.push('\\');
            out.push('u');
            out.push('0');
            out.push('0');
            out.push(hex_char(n / 16));
            out.push(hex_char(n % 16));
        } else {
            out.push(c);
        }
        assert(out@ =~= before + escape_char(c));
        i = i + 1;
    }
    assert(cs@.take(cs@.len() as int) == cs@);
    out.push('"');
}

/// Appends the compact JSON text of `v`.
pub fn write_json(v: &JsonValue, out: &mut Vec<char>)
    ensures
        final(out)@ == old(out)@ + json_text(*v),
    decreases v,
{
    match v {
        JsonValue::Null => {
            out.push('n');
            out.push('u');
            out.push('l');
            out.push('l');
        },
        JsonValue::Bool(b) => {
            if *b {
                out.push('t');
                out.push('r');
                out.push('u');
                out.push('e');
            } else {
                out.push('f');
                out.push('a');
                out.push('l');
                out.push('s');
                out.push('e');
            }
        },
        JsonValue::Number(t) => push_str(out, t.as_str()),
        JsonValue::Str(s) => write_quoted(s.as_str(), out),
        JsonValue::Array(items) => {
            out.push('[');
            let ghost start = out@;
            let mut i: usize = 0;
            while i < items.len()
                invariant
                    i <= items@.len(),
                    *v == JsonValue::Array(*items),
                    out@ + items_text(items@, i as int) == start + items_text(items@, 0),
                decreases items@.len() - i,
            {
                let ghost before = out@;
                if i > 0 {
                    out.push(',');
                }
                proof {
                    assert(decreases_to!(*v => v->Array_0));
                    vstd::std_specs::vec::axiom_vec_index_decreases(*items, i as int);
                    assert(decreases_to!(*v => items@[i as int]));
                }
                write_json(&items[i], out);
                assert(out@ =~= before + sep(i as int) + json_text(items@[i as int]));
                i = i + 1;
            }
            out.push(']');
        },
        JsonValue::Object(es) => {
            out.push('{');
            let ghost start = out@;
            let mut i: usize = 0;
            while i < es.len()
                invariant
                    i <= es@.len(),
                    *v == JsonValue::Object(*es),
                    out@ + members_text(es@, i as int) == start + members_text(es@, 0),
                decreases es@.len() - i,
            {
                let ghost before = out@;
                if i > 0 {
                    out.push(',');
                }
                write_quoted(es[i].0.as_str(), out);
                out.push(':');
                proof {
                    assert(decreases_to!(*v => v->Object_0));
                    vstd::std_specs::vec::axiom_vec_index_decreases(*es, i as int);
                    assert(decreases_to!(*v => es@[i as int].1));
                }
                write_json(&es[i].1, out);
                assert(out@ =~= before + sep(i as int) + quoted(es@[i as int].0@) + seq![':'] + json_text(es@[i as int].1));
                i = i + 1;
            }
            out.push('}');
        },
    }
}

/// The compact JSON text of `v`, as JSON values print.
pub fn to_json_text(v: &JsonValue) -> (r: String)
    ensures
        r@ == json_text(*v),
{
    let mut out: Vec<char> = Vec::new();
    write_json(v, &mut out);
    assert(out@ == json_text(*v));
    string_of(out.as_slice())
}

} // verus!
