//! What the download display shows for each item.
use vstd::prelude::*;
use crate::text::{chars_of, decimal, decimal_vec, push_all, push_str, string_of, sub_vec};

verus! {

/// What one item's progress is measured in.
#[derive(Clone, Copy, Debug)]
pub enum ProgressUnit {
    /// A file: bytes, with the total taken from the response headers.
    Bytes,
    /// Counted pieces with a known total (pages, tracks...).
    Pages(u64),
}

/// One line of the download display: a file, a chapter, anything.
pub struct ContentUnit {
    pub label: String,
    pub unit: ProgressUnit,
}

impl ContentUnit {
    /// An item measured in bytes.
    pub fn bytes(label: String) -> (c: Self)
        ensures
            c.label == label,
            c.unit == ProgressUnit::Bytes,
    {
        ContentUnit { label, unit: ProgressUnit::Bytes }
    }

    /// An item of `total` pages.
    pub fn pages(label: String, total: u64) -> (c: Self)
        ensures
            c.label == label,
            c.unit == ProgressUnit::Pages(total),
    {
        ContentUnit { label, unit: ProgressUnit::Pages(total) }
    }
}

/// The first `n` characters of `s` (all of it when shorter).
pub open spec fn first_chars(s: Seq<char>, n: nat) -> Seq<char> {
    if s.len() <= n {
        s
    } else {
        s.take(n as int)
    }
}

/// The first `n` characters of `s`, as labels and prefixes are cut to fit
/// the display.
pub fn take_chars(s: &str, n: usize) -> (r: String)
    ensures
        r@ == first_chars(s@, n as nat),
{
    let v = chars_of(s);
    if v.len() <= n {
        string_of(v.as_slice())
    } else {
        let t = sub_vec(v.as_slice(), 0, n);
        string_of(t.as_slice())
    }
}

/// The detail shown when a paged item is done: the page count and `стр.`.
pub open spec fn spec_pages_detail(n: u64) -> Seq<char> {
    decimal(n as nat) + " стр."@
}

/// The detail shown when a paged item of `n` pages is done.
pub fn pages_detail(n: u64) -> (r: String)
    ensures
        r@ == spec_pages_detail(n),
{
    let mut v = decimal_vec(n);
    push_str(&mut v, " стр.");
    string_of(v.as_slice())
}

/// Whether an item's files are all on disk already, each with some
/// content (a file's size, `None` when it is missing): such an item is
/// skipped.
pub open spec fn spec_already_saved(sizes: Seq<Option<u64>>) -> bool {
    forall|i: int| 0 <= i < sizes.len() ==> (#[trigger] sizes[i] matches Some(n) && n > 0)
}

/// Whether an item with files of these sizes is skipped as already saved.
pub fn already_saved(sizes: &[Option<u64>]) -> (b: bool)
    ensures
        b == spec_already_saved(sizes@),
{
    let mut i: usize = 0;
    while i < sizes.len()
        invariant
            i <= sizes@.len(),
            forall|j: int| 0 <= j < i ==> (#[trigger] sizes@[j] matches Some(n) && n > 0),
        decreases sizes@.len() - i,
    {
        match sizes[i] {
            Some(n) => {
                if n == 0 {
                    return false;
                }
            },
            None => {
                return false;
            },
        }
        i = i + 1;
    }
    true
}

/// The count of items done after one more item, which counts when it
/// succeeded or was already saved.
pub fn tally(count: usize, counts: bool) -> (r: usize)
    requires
        count < usize::MAX,
    ensures
        r == if counts { count + 1 } else { count as int },
{
    if counts {
        count + 1
    } else {
        count
    }
}

} // verus!
