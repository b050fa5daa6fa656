//! Regular-expression matching, done by the `regex` crate.
//!
//! A match is seen as the list of its capture groups: group 0 is the whole
//! match, and a group that took no part in the match is `None`.
use vstd::prelude::*;

verus! {

/// The capture groups of the leftmost match of `pattern` in `text`; `None`
/// when there is no match or the pattern does not compile.
pub uninterp spec fn regex_captures(pattern: Seq<char>, text: Seq<char>) -> Option<Seq<Option<Seq<char>>>>;

/// The capture groups of each successive non-overlapping match of `pattern`
/// in `text`, in order; empty when the pattern does not compile.
pub uninterp spec fn regex_captures_all(pattern: Seq<char>, text: Seq<char>) -> Seq<Seq<Option<Seq<char>>>>;

/// The texts of a match's capture groups.
pub open spec fn group_views(g: Seq<Option<String>>) -> Seq<Option<Seq<char>>> {
    g.map_values(|o: Option<String>| match o {
        Some(s) => Some(s@),
        None => None,
    })
}

/// The texts of the capture groups of several matches.
pub open spec fn match_views(ms: Seq<Vec<Option<String>>>) -> Seq<Seq<Option<Seq<char>>>> {
    ms.map_values(|g: Vec<Option<String>>| group_views(g@))
}

/// Group `i` of a match, when the match has that group and it took part.
pub open spec fn group(g: Option<Seq<Option<Seq<char>>>>, i: int) -> Option<Seq<char>> {
    match g {
        Some(gs) => if 0 <= i < gs.len() {
            gs[i]
        } else {
            None
        },
        None => None,
    }
}

/// Compiles `pattern` with `regex::Regex::new` and runs
/// `Regex::captures` on `text`, copying out each group.
///
/// Trusted: the result is named by `regex_captures`, which nothing here
/// defines; a pattern that does not compile gives `None`, as no match does.
#[verifier::external_body]
pub(crate) fn captures(pattern: &str, text: &str) -> (r: Option<Vec<Option<String>>>)
    ensures
        match r {
            Some(g) => regex_captures(pattern@, text@) == Some(group_views(g@)),
            None => regex_captures(pattern@, text@) is None,
        },
{
    let re = regex::Regex::new(pattern).ok()?;
    let caps = re.captures(text)?;
    Some(caps.iter().map(|m| m.map(|m| m.as_str().to_string())).collect())
}

/// Compiles `pattern` with `regex::Regex::new` and runs
/// `Regex::captures_iter` on `text`, copying out each match's groups.
///
/// Trusted: the result is named by `regex_captures_all`, which nothing here
/// defines; a pattern that does not compile gives no matches.
#[verifier::external_body]
pub(crate) fn captures_all(pattern: &str, text: &str) -> (r: Vec<Vec<Option<String>>>)
    ensures
        match_views(r@) == regex_captures_all(pattern@, text@),
{
    match regex::Regex::new(pattern) {
        Ok(re) => re.captures_iter(text).map(|c| c.iter().map(|m| m.map(|m| m.as_str().to_string())).collect()).collect(),
        Err(_) => Vec::new(),
    }
}

/// Group `i` of a match, copied out.
pub fn group_of(g: &Option<Vec<Option<String>>>, i: usize) -> (r: Option<String>)
    ensures
        match r {
            Some(s) => group(match g {
                Some(v) => Some(group_views(v@)),
                None => None,
            }, i as int) == Some(s@),
            None => group(match g {
                Some(v) => Some(group_views(v@)),
                None => None,
            }, i as int) is None,
        },
{
    match g {
        Some(v) => {
            if i < v.len() {
                match &v[i] {
                    Some(s) => Some(s.clone()),
                    None => None,
                }
            } else {
                None
            }
        },
        None => None,
    }
}

} // verus!
