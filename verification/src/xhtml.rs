//! Facts about the XHTML clean-up and the plain-text rendering: what
//! replacing a pattern leaves out, which texts the clean-up no longer
//! changes, and how escaped quotes are read back.
use vstd::prelude::*;
use crate::text::{all_ascii, ends_with, find, find_from, is_ascii_char, lemma_find_from, matches_at, replace_all, starts_with};
use crate::epub::{close_img_from, close_tag, plain_state, spec_html_to_plain_text, spec_unescape_html_entities};

verus! {

/// `q` occurs nowhere in `s`.
pub open spec fn no_match(s: Seq<char>, q: Seq<char>) -> bool {
    forall|i: int| !matches_at(s, q, i)
}

/// A match in a suffix is a match in the whole.
pub proof fn lemma_match_in_suffix(s: Seq<char>, q: Seq<char>, k: int, i: int)
    requires
        0 <= k <= s.len(),
        matches_at(s.skip(k), q, i),
    ensures
        matches_at(s, q, i + k),
{
    assert forall|m: int| 0 <= m < q.len() implies #[trigger] s[i + k + m] == q[m] by {
        assert(s.skip(k)[i + m] == s[i + k + m]);
    }
}

/// A suffix of a text without `q` has no `q` either.
pub proof fn lemma_no_match_suffix(s: Seq<char>, q: Seq<char>, k: int)
    requires
        0 <= k <= s.len(),
        no_match(s, q),
    ensures
        no_match(s.skip(k), q),
{
    assert forall|i: int| !matches_at(s.skip(k), q, i) by {
        if matches_at(s.skip(k), q, i) {
            lemma_match_in_suffix(s, q, k, i);
        }
    }
}

/// Replacing a pattern that does not occur changes nothing.
pub proof fn lemma_replace_identity(s: Seq<char>, p: Seq<char>, r: Seq<char>)
    requires
        p.len() > 0,
        no_match(s, p),
    ensures
        replace_all(s, p, r) == s,
    decreases s.len(),
{
    if s.len() > 0 {
        assert(!matches_at(s, p, 0));
        lemma_no_match_suffix(s, p, 1);
        assert(s.drop_first() =~= s.skip(1));
        lemma_replace_identity(s.drop_first(), p, r);
        assert(s =~= seq![s[0]] + s.drop_first());
    }
}

/// A replaced text that starts with `t`, none of whose characters begins
/// the replacement, started with `t` before the replacement.
pub proof fn lemma_replace_prefix(s: Seq<char>, p: Seq<char>, r: Seq<char>, t: Seq<char>)
    requires
        p.len() > 0,
        r.len() > 0,
        t.len() > 0,
        forall|j: int| 0 <= j < t.len() ==> t[j] != r[0],
        t.len() <= replace_all(s, p, r).len(),
        forall|j: int| 0 <= j < t.len() ==> replace_all(s, p, r)[j] == t[j],
    ensures
        t.len() <= s.len(),
        forall|j: int| 0 <= j < t.len() ==> s[j] == t[j],
    decreases t.len(),
{
    let out = replace_all(s, p, r);
    if s.len() == 0 {
        assert(out.len() == 0);
    } else if starts_with(s, p) {
        assert(out == r + replace_all(s.skip(p.len() as int), p, r));
        assert(out[0] == r[0]);
        assert(t[0] != r[0]);
    } else {
        let s1 = s.drop_first();
        let r1 = replace_all(s1, p, r);
        assert(out == seq![s[0]] + r1);
        assert(out[0] == s[0]);
        if t.len() > 1 {
            let t1 = t.drop_first();
            assert forall|j: int| 0 <= j < t1.len() implies r1[j] == t1[j] by {
                assert(out[j + 1] == r1[j]);
                assert(t[j + 1] == t1[j]);
            }
            assert forall|j: int| 0 <= j < t1.len() implies t1[j] != r[0] by {
                assert(t[j + 1] == t1[j]);
            }
            lemma_replace_prefix(s1, p, r, t1);
            assert forall|j: int| 0 <= j < t.len() implies s[j] == t[j] by {
                if j > 0 {
                    assert(s1[j - 1] == s[j]);
                    assert(t1[j - 1] == t[j]);
                }
            }
        }
    }
}

/// What a replacement `r` must be like for no `q` to appear across it:
/// no later character of `q` begins `r`, and where a character of `r`
/// begins `q`, no `q` starts there within `r` or runs past its end.
pub open spec fn compat(r: Seq<char>, q: Seq<char>) -> bool {
    &&& forall|j: int| 1 <= j < q.len() ==> q[j] != r[0]
    &&& forall|i: int| 0 <= i < r.len() && r[i] == q[0] ==> i + q.len() <= r.len() && !matches_at(r, q, i)
}

/// After replacing `p` by `r`, `q` occurs nowhere, when `q` is `p` itself
/// or was absent before, and `r` fits `q`.
#[verifier::rlimit(40)]
#[verifier::spinoff_prover]
pub proof fn lemma_replace_no_match(s: Seq<char>, p: Seq<char>, r: Seq<char>, q: Seq<char>)
    requires
        p.len() > 0,
        r.len() > 0,
        q.len() >= 2,
        compat(r, q),
        q == p || no_match(s, q),
    ensures
        no_match(replace_all(s, p, r), q),
    decreases s.len(),
{
    let out = replace_all(s, p, r);
    if s.len() == 0 {
        assert(out.len() == 0);
    } else if starts_with(s, p) {
        let rest = s.skip(p.len() as int);
        if q != p {
            lemma_no_match_suffix(s, q, p.len() as int);
        }
        lemma_replace_no_match(rest, p, r, q);
        let r1 = replace_all(rest, p, r);
        assert(out == r + r1);
        assert forall|i: int| !matches_at(out, q, i) by {
            if matches_at(out, q, i) {
                if i >= r.len() {
                    assert(matches_at(r1, q, i - r.len())) by {
                        assert forall|m: int| 0 <= m < q.len() implies #[trigger] r1[i - r.len() + m] == q[m] by {
                            assert(out[i + m] == q[m]);
                            assert(out[i + m] == r1[i - r.len() + m]);
                        }
                    }
                } else {
                    assert(out[i + 0] == q[0]);
                    assert(r[i] == q[0]);
                    assert(matches_at(r, q, i)) by {
                        assert forall|m: int| 0 <= m < q.len() implies #[trigger] r[i + m] == q[m] by {
                            assert(out[i + m] == q[m]);
                            assert(out[i + m] == r[i + m]);
                        }
                    }
                }
            }
        }
    } else {
        let s1 = s.drop_first();
        assert(s1 =~= s.skip(1));
        if q != p {
            lemma_no_match_suffix(s, q, 1);
        }
        lemma_replace_no_match(s1, p, r, q);
        let r1 = replace_all(s1, p, r);
        assert(out == seq![s[0]] + r1);
        assert forall|i: int| !matches_at(out, q, i) by {
            if matches_at(out, q, i) {
                if i >= 1 {
                    assert(matches_at(r1, q, i - 1)) by {
                        assert forall|m: int| 0 <= m < q.len() implies #[trigger] r1[i - 1 + m] == q[m] by {
                            assert(out[i + m] == q[m]);
                            assert(out[i + m] == r1[i - 1 + m]);
                        }
                    }
                } else {
                    let t = q.drop_first();
                    assert forall|j: int| 0 <= j < t.len() implies r1[j] == t[j] by {
                        assert(out[0int + (j + 1)] == q[j + 1]);
                        assert(out[j + 1] == r1[j]);
                    }
                    assert forall|j: int| 0 <= j < t.len() implies t[j] != r[0] by {
                        assert(t[j] == q[j + 1]);
                    }
                    lemma_replace_prefix(s1, p, r, t);
                    assert(out[0int + 0int] == q[0]);
                    assert(matches_at(s, q, 0)) by {
                        assert forall|m: int| 0 <= m < q.len() implies #[trigger] s[0 + m] == q[m] by {
                            if m > 0 {
                                assert(s1[m - 1] == s[m]);
                                assert(t[m - 1] == q[m]);
                            }
                        }
                    }
                }
            }
        }
    }
}

/// `s` after replacing each pair's pattern by its text, in order.
pub open spec fn replace_chain(s: Seq<char>, ps: Seq<(Seq<char>, Seq<char>)>) -> Seq<char>
    decreases ps.len(),
{
    if ps.len() == 0 {
        s
    } else {
        replace_all(replace_chain(s, ps.drop_last()), ps.last().0, ps.last().1)
    }
}

/// After a chain of replacements that fit each other, none of the
/// patterns occurs.
pub proof fn lemma_chain_no_match(s: Seq<char>, ps: Seq<(Seq<char>, Seq<char>)>)
    requires
        forall|k: int| 0 <= k < ps.len() ==> (#[trigger] ps[k]).0.len() >= 2 && ps[k].1.len() > 0,
        forall|i: int, j: int| 0 <= j <= i < ps.len() ==> #[trigger] compat(ps[i].1, ps[j].0),
    ensures
        forall|j: int| 0 <= j < ps.len() ==> no_match(replace_chain(s, ps), (#[trigger] ps[j]).0),
    decreases ps.len(),
{
    if ps.len() > 0 {
        let init = ps.drop_last();
        assert forall|k: int| 0 <= k < init.len() implies (#[trigger] init[k]).0.len() >= 2 && init[k].1.len() > 0 by {
            assert(init[k] == ps[k]);
        }
        assert forall|i: int, j: int| 0 <= j <= i < init.len() implies #[trigger] compat(init[i].1, init[j].0) by {
            assert(init[i] == ps[i] && init[j] == ps[j]);
            assert(compat(ps[i].1, ps[j].0));
        }
        lemma_chain_no_match(s, init);
        let n = ps.len() - 1;
        let before = replace_chain(s, init);
        assert forall|j: int| 0 <= j < ps.len() implies no_match(replace_chain(s, ps), (#[trigger] ps[j]).0) by {
            assert(ps[n] == ps.last());
            assert(ps[n].0.len() >= 2 && ps[n].1.len() > 0);
            assert(compat(ps[n].1, ps[j].0));
            assert(ps[j].0.len() >= 2);
            if j < n {
                assert(init[j] == ps[j]);
                assert(no_match(before, init[j].0));
            }
            lemma_replace_no_match(before, ps[n].0, ps[n].1, ps[j].0);
        }
    }
}

/// A chain of replacements whose patterns do not occur changes nothing.
pub proof fn lemma_chain_identity(s: Seq<char>, ps: Seq<(Seq<char>, Seq<char>)>)
    requires
        forall|k: int| 0 <= k < ps.len() ==> (#[trigger] ps[k]).0.len() > 0,
        forall|k: int| 0 <= k < ps.len() ==> no_match(s, (#[trigger] ps[k]).0),
    ensures
        replace_chain(s, ps) == s,
    decreases ps.len(),
{
    if ps.len() > 0 {
        let init = ps.drop_last();
        assert forall|k: int| 0 <= k < init.len() implies (#[trigger] init[k]).0.len() > 0 && no_match(s, init[k].0) by {
            assert(init[k] == ps[k]);
        }
        lemma_chain_identity(s, init);
        let n = ps.len() - 1;
        assert(ps[n] == ps.last());
        lemma_replace_identity(s, ps[n].0, ps[n].1);
    }
}

/// The clean-up's replacements, in order.
pub open spec fn xhtml_pairs() -> Seq<(Seq<char>, Seq<char>)> {
    seq![
        ("<br>"@, "<br />"@),
        ("<br/>"@, "<br />"@),
        ("<hr>"@, "<hr />"@),
        ("<hr/>"@, "<hr />"@),
        ("&nbsp;"@, "\u{00A0}"@),
        ("&mdash;"@, "\u{2014}"@),
        ("&ndash;"@, "\u{2013}"@),
        ("&laquo;"@, "\u{00AB}"@),
        ("&raquo;"@, "\u{00BB}"@),
        ("&hellip;"@, "\u{2026}"@),
        ("&bull;"@, "\u{2022}"@),
        ("&ldquo;"@, "\u{201C}"@),
        ("&rdquo;"@, "\u{201D}"@),
        ("&lsquo;"@, "\u{2018}"@),
        ("&rsquo;"@, "\u{2019}"@),
        ("&copy;"@, "\u{00A9}"@),
        ("&reg;"@, "\u{00AE}"@),
        ("&trade;"@, "\u{2122}"@)
    ]
}

/// The clean-up's replacements are the chain of its pairs.
pub proof fn lemma_xhtml_chain(s: Seq<char>)
    ensures
        crate::epub::xhtml_replacements(s) == replace_chain(s, xhtml_pairs()),
{
    reveal_with_fuel(replace_chain, 19);
    let ps = xhtml_pairs();
    assert(ps.len() == 18);
}

/// A one-character replacement outside ASCII fits any ASCII pattern.
pub proof fn lemma_compat_single(r: Seq<char>, q: Seq<char>)
    requires
        r.len() == 1,
        !is_ascii_char(r[0]),
        q.len() > 0,
        all_ascii(q),
    ensures
        compat(r, q),
{
    assert forall|j: int| 1 <= j < q.len() implies q[j] != r[0] by {
        assert(is_ascii_char(q[j]));
    }
    assert(is_ascii_char(q[0]));
}

/// The tag replacements fit the tag patterns replaced before them.
pub proof fn lemma_tag_compat()
    ensures
        compat("<br />"@, "<br>"@),
        compat("<br />"@, "<br/>"@),
        compat("<hr />"@, "<br>"@),
        compat("<hr />"@, "<br/>"@),
        compat("<hr />"@, "<hr>"@),
        compat("<hr />"@, "<hr/>"@),
{
    reveal_strlit("<br />");
    reveal_strlit("<hr />");
    reveal_strlit("<br>");
    reveal_strlit("<br/>");
    reveal_strlit("<hr>");
    reveal_strlit("<hr/>");
    let br = "<br />"@;
    let hr = "<hr />"@;
    assert(!matches_at(br, "<br>"@, 0) && !matches_at(hr, "<br>"@, 0) && !matches_at(hr, "<hr>"@, 0)) by {
        assert(br[0int + 3int] != "<br>"@[3]);
        assert(hr[0int + 1int] != "<br>"@[1]);
        assert(hr[0int + 3int] != "<hr>"@[3]);
    }
    assert(!matches_at(br, "<br/>"@, 0) && !matches_at(hr, "<br/>"@, 0) && !matches_at(hr, "<hr/>"@, 0)) by {
        assert(br[0int + 3int] != "<br/>"@[3]);
        assert(hr[0int + 1int] != "<br/>"@[1]);
        assert(hr[0int + 3int] != "<hr/>"@[3]);
    }
}

/// The clean-up's pairs have patterns of two or more characters, non-empty
/// replacements, and each replacement fits every pattern up to its own.
pub proof fn lemma_xhtml_pairs_fit()
    ensures
        forall|k: int| 0 <= k < xhtml_pairs().len() ==> (#[trigger] xhtml_pairs()[k]).0.len() >= 2
            && xhtml_pairs()[k].1.len() > 0,
        forall|i: int, j: int| 0 <= j <= i < xhtml_pairs().len() ==> #[trigger] compat(
            xhtml_pairs()[i].1,
            xhtml_pairs()[j].0,
        ),
        forall|k: int| 0 <= k < xhtml_pairs().len() ==> spaceless_pattern((#[trigger] xhtml_pairs()[k]).0),
{
    reveal_strlit("<br>");
    reveal_strlit("<br/>");
    reveal_strlit("<hr>");
    reveal_strlit("<hr/>");
    reveal_strlit("&nbsp;");
    reveal_strlit("&mdash;");
    reveal_strlit("&ndash;");
    reveal_strlit("&laquo;");
    reveal_strlit("&raquo;");
    reveal_strlit("&hellip;");
    reveal_strlit("&bull;");
    reveal_strlit("&ldquo;");
    reveal_strlit("&rdquo;");
    reveal_strlit("&lsquo;");
    reveal_strlit("&rsquo;");
    reveal_strlit("&copy;");
    reveal_strlit("&reg;");
    reveal_strlit("&trade;");
    reveal_strlit("\u{00A0}");
    reveal_strlit("\u{2014}");
    reveal_strlit("\u{2013}");
    reveal_strlit("\u{00AB}");
    reveal_strlit("\u{00BB}");
    reveal_strlit("\u{2026}");
    reveal_strlit("\u{2022}");
    reveal_strlit("\u{201C}");
    reveal_strlit("\u{201D}");
    reveal_strlit("\u{2018}");
    reveal_strlit("\u{2019}");
    reveal_strlit("\u{00A9}");
    reveal_strlit("\u{00AE}");
    reveal_strlit("\u{2122}");
    reveal_strlit("<br />");
    reveal_strlit("<hr />");
    let ps = xhtml_pairs();
    assert(ps.len() == 18);
    assert forall|k: int| 0 <= k < 18 implies all_ascii((#[trigger] ps[k]).0) && ps[k].0.len() >= 2 && ps[k].1.len() > 0
        && spaceless_pattern(ps[k].0) by {
    }
    assert forall|k: int| 4 <= k < 18 implies (#[trigger] ps[k]).1.len() == 1 && !is_ascii_char(ps[k].1[0]) by {
    }
    lemma_tag_compat();
    assert forall|i: int, j: int| 0 <= j <= i < ps.len() implies #[trigger] compat(ps[i].1, ps[j].0) by {
        if i >= 4 {
            assert(all_ascii(ps[j].0));
            lemma_compat_single(ps[i].1, ps[j].0);
        }
    }
}

// ----------------------------------------------------------------------------
// Closing image tags
// ----------------------------------------------------------------------------

/// A match in a suffix is a match in the whole, and the other way round.
pub proof fn lemma_match_shift(y: Seq<char>, p: Seq<char>, pos: int, j: int)
    requires
        0 <= pos <= y.len(),
        0 <= j,
    ensures
        matches_at(y.skip(pos), p, j) <==> matches_at(y, p, j + pos),
{
    if matches_at(y.skip(pos), p, j) {
        lemma_match_in_suffix(y, p, pos, j);
    }
    if matches_at(y, p, j + pos) {
        assert forall|m: int| 0 <= m < p.len() implies #[trigger] y.skip(pos)[j + m] == p[m] by {
            assert(y[j + pos + m] == p[m]);
        }
    }
}

/// A match with none before it from `i` is what `find_from` finds.
pub proof fn lemma_find_from_is(s: Seq<char>, p: Seq<char>, i: int, k: int)
    requires
        0 <= i <= k,
        matches_at(s, p, k),
        forall|j: int| i <= j < k ==> !matches_at(s, p, j),
    ensures
        find_from(s, p, i) == Some(k),
{
    lemma_find_from(s, p, i);
}

/// Searching a text from `pos + i` is searching its suffix from `i`.
pub proof fn lemma_find_shift(y: Seq<char>, p: Seq<char>, pos: int, i: int)
    requires
        0 <= pos <= y.len(),
        0 <= i,
    ensures
        find_from(y, p, pos + i) == match find_from(y.skip(pos), p, i) {
            Some(k) => Some(k + pos),
            None => None::<int>,
        },
{
    lemma_find_from(y, p, pos + i);
    lemma_find_from(y.skip(pos), p, i);
    match find_from(y.skip(pos), p, i) {
        Some(k) => {
            lemma_match_shift(y, p, pos, k);
            assert forall|j: int| pos + i <= j < k + pos implies !matches_at(y, p, j) by {
                lemma_match_shift(y, p, pos, j - pos);
            }
            lemma_find_from_is(y, p, pos + i, k + pos);
        },
        None => {
            match find_from(y, p, pos + i) {
                Some(k) => {
                    lemma_match_shift(y, p, pos, k - pos);
                },
                None => {},
            }
        },
    }
}

/// Every complete `<img ...>` tag of `y`, taken as `close_img_from` takes
/// them, already ends with `/>`.
pub open spec fn closed(y: Seq<char>) -> bool
    decreases y.len(),
{
    match find(y, "<img"@) {
        None => true,
        Some(a) => match find_from(y, ">"@, a) {
            None => true,
            Some(e) => {
                proof {
                    reveal_strlit(">");
                    lemma_find_from(y, "<img"@, 0);
                    lemma_find_from(y, ">"@, a);
                }
                ends_with(y.subrange(a, e + 1), "/>"@) && closed(y.skip(e + 1))
            },
        },
    }
}

/// Closing the tags of a text whose tags are closed changes nothing.
pub proof fn lemma_close_identity(y: Seq<char>, pos: int)
    requires
        0 <= pos <= y.len(),
        closed(y.skip(pos)),
    ensures
        close_img_from(y, pos) == y.skip(pos),
    decreases y.len() - pos,
{
    reveal_strlit(">");
    reveal_strlit("<img");
    let z = y.skip(pos);
    lemma_find_shift(y, "<img"@, pos, 0);
    lemma_find_from(y, "<img"@, pos);
    match find_from(y, "<img"@, pos) {
        None => {},
        Some(a) => {
            let a1 = a - pos;
            lemma_find_shift(y, ">"@, pos, a1);
            lemma_find_from(y, ">"@, a);
            match find_from(y, ">"@, a) {
                None => {},
                Some(e) => {
                    let e1 = e - pos;
                    assert(z.subrange(a1, e1 + 1) =~= y.subrange(a, e + 1));
                    assert(z.skip(e1 + 1) =~= y.skip(e + 1));
                    lemma_close_identity(y, e + 1);
                    assert(y.subrange(pos, a) + y.subrange(a, e + 1) + y.skip(e + 1) =~= y.skip(pos));
                },
            }
        },
    }
}

/// What a closed tag holds: the tag itself when it ends with `/>`, else its
/// text up to the `>` followed by ` />`.
proof fn lemma_close_tag_shape(tag: Seq<char>)
    requires
        tag.len() >= 1,
    ensures
        ends_with(tag, "/>"@) ==> close_tag(tag) == tag,
        !ends_with(tag, "/>"@) ==> close_tag(tag) == tag.drop_last() + " />"@,
{
}

/// A prefix without spaces of the closed text was there before.
#[verifier::rlimit(40)]
#[verifier::spinoff_prover]
pub proof fn lemma_close_prefix(t: Seq<char>, pos: int, u: Seq<char>)
    requires
        0 <= pos <= t.len(),
        forall|j: int| 0 <= j < u.len() ==> u[j] != ' ',
        u.len() <= close_img_from(t, pos).len(),
        forall|j: int| 0 <= j < u.len() ==> close_img_from(t, pos)[j] == u[j],
    ensures
        u.len() <= t.len() - pos,
        forall|j: int| 0 <= j < u.len() ==> t[pos + j] == u[j],
    decreases t.len() - pos,
{
    reveal_strlit(">");
    reveal_strlit(" />");
    let c = close_img_from(t, pos);
    lemma_find_from(t, "<img"@, pos);
    match find_from(t, "<img"@, pos) {
        None => {
            assert(c == t.skip(pos));
        },
        Some(a) => {
            lemma_find_from(t, ">"@, a);
            match find_from(t, ">"@, a) {
                None => {
                    assert(c == t.skip(pos));
                },
                Some(e) => {
                    let tag = t.subrange(a, e + 1);
                    let c2 = close_img_from(t, e + 1);
                    lemma_close_tag_shape(tag);
                    if ends_with(tag, "/>"@) {
                        let pre = t.subrange(pos, e + 1);
                        assert(c =~= pre + c2);
                        let n: int = pre.len() as int;
                        if u.len() > n {
                            let u2 = u.skip(n);
                            assert forall|j: int| 0 <= j < u2.len() implies c2[j] == u2[j] by {
                                assert(c[n + j] == c2[j]);
                            }
                            lemma_close_prefix(t, e + 1, u2);
                            assert forall|j: int| 0 <= j < u.len() implies t[pos + j] == u[j] by {
                                if j >= n {
                                    assert(u2[j - n] == u[j]);
                                } else {
                                    assert(c[j] == pre[j]);
                                }
                            }
                        } else {
                            assert forall|j: int| 0 <= j < u.len() implies t[pos + j] == u[j] by {
                                assert(c[j] == pre[j]);
                            }
                        }
                    } else {
                        let pre = t.subrange(pos, e);
                        assert(c =~= pre + " />"@ + c2);
                        let n: int = pre.len() as int;
                        if u.len() > n {
                            assert(c[n] == ' ');
                            assert(u[n] != ' ');
                        }
                        assert forall|j: int| 0 <= j < u.len() implies t[pos + j] == u[j] by {
                            assert(c[j] == pre[j]);
                        }
                    }
                },
            }
        },
    }
}

/// The pattern conditions for closing tags: no spaces, not starting with
/// `/` or `>`.
pub open spec fn spaceless_pattern(q: Seq<char>) -> bool {
    &&& q.len() > 0
    &&& forall|j: int| 0 <= j < q.len() ==> q[j] != ' '
    &&& q[0] != '/'
    &&& q[0] != '>'
}

/// A tag kept as it is, then the rest closed: no new pattern.
proof fn lemma_kept_tag_no_match(t: Seq<char>, pos: int, e: int, q: Seq<char>)
    requires
        0 <= pos <= e < t.len(),
        spaceless_pattern(q),
        no_match(t.skip(pos), q),
        no_match(close_img_from(t, e + 1), q),
    ensures
        no_match(t.subrange(pos, e + 1) + close_img_from(t, e + 1), q),
{
    let tp = t.skip(pos);
    let pre = t.subrange(pos, e + 1);
    let c2 = close_img_from(t, e + 1);
    let c = pre + c2;
    let n: int = pre.len() as int;
    assert forall|i: int| !matches_at(c, q, i) by {
        if matches_at(c, q, i) {
            if i >= n {
                assert(matches_at(c2, q, i - n)) by {
                    assert forall|m: int| 0 <= m < q.len() implies #[trigger] c2[i - n + m] == q[m] by {
                        assert(c[i + m] == q[m]);
                        assert(c[i + m] == c2[i - n + m]);
                    }
                }
            } else if i + q.len() > n {
                let u = q.skip(n - i);
                assert forall|j: int| 0 <= j < u.len() implies c2[j] == u[j] by {
                    assert(c[i + (n - i + j)] == q[n - i + j]);
                    assert(c[n + j] == c2[j]);
                }
                lemma_close_prefix(t, e + 1, u);
                assert forall|m: int| 0 <= m < q.len() implies #[trigger] tp[i + m] == q[m] by {
                    if i + m >= n {
                        assert(t[e + 1 + (i + m - n)] == u[i + m - n]);
                    } else {
                        assert(c[i + m] == q[m]);
                        assert(c[i + m] == pre[i + m]);
                    }
                }
                assert(matches_at(tp, q, i));
            } else {
                assert forall|m: int| 0 <= m < q.len() implies #[trigger] tp[i + m] == q[m] by {
                    assert(c[i + m] == q[m]);
                    assert(c[i + m] == pre[i + m]);
                }
                assert(matches_at(tp, q, i));
            }
        }
    }
}

/// A tag closed with ` />`, then the rest closed: no new pattern.
proof fn lemma_closed_tag_no_match(t: Seq<char>, pos: int, e: int, q: Seq<char>)
    requires
        0 <= pos <= e < t.len(),
        spaceless_pattern(q),
        no_match(t.skip(pos), q),
        no_match(close_img_from(t, e + 1), q),
    ensures
        no_match(t.subrange(pos, e) + " />"@ + close_img_from(t, e + 1), q),
{
    reveal_strlit(" />");
    let tp = t.skip(pos);
    let pre = t.subrange(pos, e);
    let c2 = close_img_from(t, e + 1);
    let c = pre + " />"@ + c2;
    let n: int = pre.len() as int;
    assert(c[n] == ' ' && c[n + 1] == '/' && c[n + 2] == '>');
    assert forall|i: int| !matches_at(c, q, i) by {
        if matches_at(c, q, i) {
            assert(c[i + 0] == q[0]);
            if i >= n + 3 {
                assert(matches_at(c2, q, i - n - 3)) by {
                    assert forall|m: int| 0 <= m < q.len() implies #[trigger] c2[i - n - 3 + m] == q[m] by {
                        assert(c[i + m] == q[m]);
                        assert(c[i + m] == c2[i - n - 3 + m]);
                    }
                }
            } else if i >= n {
            } else if i + q.len() > n {
                assert(c[i + (n - i)] == q[n - i]);
            } else {
                assert forall|m: int| 0 <= m < q.len() implies #[trigger] tp[i + m] == q[m] by {
                    assert(c[i + m] == q[m]);
                    assert(c[i + m] == pre[i + m]);
                }
                assert(matches_at(tp, q, i));
            }
        }
    }
}

/// Closing the tags brings in no pattern without spaces that starts with
/// neither `/` nor `>`.
pub proof fn lemma_close_no_match(t: Seq<char>, pos: int, q: Seq<char>)
    requires
        0 <= pos <= t.len(),
        spaceless_pattern(q),
        no_match(t.skip(pos), q),
    ensures
        no_match(close_img_from(t, pos), q),
    decreases t.len() - pos,
{
    reveal_strlit(">");
    reveal_strlit(" />");
    let c = close_img_from(t, pos);
    let tp = t.skip(pos);
    lemma_find_from(t, "<img"@, pos);
    match find_from(t, "<img"@, pos) {
        None => {
            assert(c == tp);
        },
        Some(a) => {
            lemma_find_from(t, ">"@, a);
            match find_from(t, ">"@, a) {
                None => {
                    assert(c == tp);
                },
                Some(e) => {
                    let tag = t.subrange(a, e + 1);
                    lemma_close_tag_shape(tag);
                    lemma_no_match_suffix(tp, q, e + 1 - pos);
                    assert(tp.skip(e + 1 - pos) =~= t.skip(e + 1));
                    lemma_close_no_match(t, e + 1, q);
                    if ends_with(tag, "/>"@) {
                        assert(c =~= t.subrange(pos, e + 1) + close_img_from(t, e + 1));
                        lemma_kept_tag_no_match(t, pos, e, q);
                    } else {
                        assert(c =~= t.subrange(pos, e) + " />"@ + close_img_from(t, e + 1));
                        lemma_closed_tag_no_match(t, pos, e, q);
                    }
                },
            }
        },
    }
}

/// One closed tag followed by closed text is closed, when the tag begins
/// the first `<img` and its only `>` is its last character.
#[verifier::rlimit(40)]
proof fn lemma_closed_step(t: Seq<char>, pos: int, a: int, e: int)
    requires
        0 <= pos <= a,
        a + 4 <= e < t.len(),
        matches_at(t, "<img"@, a),
        forall|j: int| pos <= j < a ==> !matches_at(t, "<img"@, j),
        forall|j: int| a <= j < e ==> t[j] != '>',
        t[e] == '>',
        closed(close_img_from(t, e + 1)),
    ensures
        closed(t.subrange(pos, a) + close_tag(t.subrange(a, e + 1)) + close_img_from(t, e + 1)),
{
    reveal_strlit(">");
    reveal_strlit("<img");
    reveal_strlit("/>");
    reveal_strlit(" />");
    let tag = t.subrange(a, e + 1);
    let ct = close_tag(tag);
    let c2 = close_img_from(t, e + 1);
    let seg = t.subrange(pos, a);
    let c = seg + ct + c2;
    let a1: int = a - pos;
    let tl: int = tag.len() as int;
    lemma_close_tag_shape(tag);
    // The closed tag agrees with the tag but for its end.
    assert forall|m: int| 0 <= m < tl - 1 implies ct[m] == tag[m] by {
        if !ends_with(tag, "/>"@) {
            assert(ct == tag.drop_last() + " />"@);
        }
    }
    assert forall|k: int| 0 <= k < a1 + tl - 1 implies c[k] == t[pos + k] by {
        if k >= a1 {
            assert(c[k] == ct[k - a1]);
            assert(tag[k - a1] == t[a + (k - a1)]);
        }
    }
    // The first `<img` of the closed text is the tag's.
    assert(matches_at(c, "<img"@, a1)) by {
        assert forall|m: int| 0 <= m < 4 implies #[trigger] c[a1 + m] == "<img"@[m] by {
            assert(t[a + m] == "<img"@[m]);
        }
    }
    assert forall|j: int| 0 <= j < a1 implies !matches_at(c, "<img"@, j) by {
        if matches_at(c, "<img"@, j) {
            assert(matches_at(t, "<img"@, pos + j)) by {
                assert forall|m: int| 0 <= m < 4 implies #[trigger] t[pos + j + m] == "<img"@[m] by {
                    assert(c[j + m] == "<img"@[m]);
                }
            }
        }
    }
    lemma_find_from_is(c, "<img"@, 0, a1);
    // Its first `>` is the closed tag's last character.
    let l: int = a1 + ct.len();
    assert(ct.len() >= 1 && ct[ct.len() - 1] == '>' && ct[ct.len() - 2] == '/') by {
        if ends_with(tag, "/>"@) {
            assert(tag[tl - 2 + 0] == "/>"@[0]);
            assert(tag[tl - 2 + 1] == "/>"@[1]);
        } else {
            assert(ct == tag.drop_last() + " />"@);
        }
    }
    assert(c[l - 1] == ct[ct.len() - 1]);
    assert(matches_at(c, ">"@, l - 1)) by {
        assert(c[l - 1 + 0] == '>');
    }
    assert forall|j: int| a1 <= j < l - 1 implies !matches_at(c, ">"@, j) by {
        if matches_at(c, ">"@, j) {
            assert(c[j + 0] == '>');
            if j < a1 + tl - 1 {
                assert(c[j] == t[pos + j]);
                assert(t[pos + j] != '>');
            } else {
                assert(!ends_with(tag, "/>"@)) by {
                    if ends_with(tag, "/>"@) {
                        assert(ct.len() == tl);
                    }
                }
                assert(ct == tag.drop_last() + " />"@);
                assert(c[j] == ct[j - a1]);
            }
        }
    }
    lemma_find_from_is(c, ">"@, a1, l - 1);
    assert(c.subrange(a1, l) =~= ct);
    assert(ends_with(ct, "/>"@)) by {
        assert forall|k: int| 0 <= k < 2 implies #[trigger] ct[ct.len() - 2 + k] == "/>"@[k] by {
            if k == 0 {
                assert(ct[ct.len() - 2] == '/');
            } else {
                assert(ct[ct.len() - 1] == '>');
            }
        }
    }
    assert(c.skip(l) =~= c2);
    assert(find(c, "<img"@) == Some(a1));
    assert(find_from(c, ">"@, a1) == Some(l - 1));
}

/// The closed text has all its tags closed.
pub proof fn lemma_close_closed(t: Seq<char>, pos: int)
    requires
        0 <= pos <= t.len(),
    ensures
        closed(close_img_from(t, pos)),
    decreases t.len() - pos,
{
    reveal_strlit(">");
    reveal_strlit("<img");
    let c = close_img_from(t, pos);
    let tp = t.skip(pos);
    lemma_find_from(t, "<img"@, pos);
    lemma_find_shift(t, "<img"@, pos, 0);
    match find_from(t, "<img"@, pos) {
        None => {
            assert(c == tp);
            assert(find(tp, "<img"@) is None);
        },
        Some(a) => {
            lemma_find_from(t, ">"@, a);
            lemma_find_shift(t, ">"@, pos, a - pos);
            match find_from(t, ">"@, a) {
                None => {
                    assert(c == tp);
                    assert(find(tp, "<img"@) == Some(a - pos));
                    assert(find_from(tp, ">"@, a - pos) is None);
                },
                Some(e) => {
                    lemma_close_closed(t, e + 1);
                    assert(e >= a + 4) by {
                        assert(t[e + 0] == '>');
                        if e < a + 4 {
                            assert(t[a + (e - a)] == "<img"@[e - a]);
                        }
                    }
                    assert forall|j: int| a <= j < e implies t[j] != '>' by {
                        if t[j] == '>' {
                            assert(matches_at(t, ">"@, j)) by {
                                assert(t[j + 0] == ">"@[0]);
                            }
                        }
                    }
                    assert(t[e + 0] == ">"@[0]);
                    lemma_closed_step(t, pos, a, e);
                    assert(c == t.subrange(pos, a) + close_tag(t.subrange(a, e + 1)) + close_img_from(t, e + 1));
                },
            }
        },
    }
}

// ----------------------------------------------------------------------------
// Plain text of escaped quotes
// ----------------------------------------------------------------------------

/// `x` with each `"` written as `&quot;`.
pub open spec fn quote_escaped(x: Seq<char>) -> Seq<char>
    decreases x.len(),
{
    if x.len() == 0 {
        Seq::empty()
    } else {
        (if x[0] == '"' {
            "&quot;"@
        } else {
            seq![x[0]]
        }) + quote_escaped(x.drop_first())
    }
}

/// A text without `&`, `<` or `>`.
pub open spec fn no_markup(x: Seq<char>) -> bool {
    forall|i: int| 0 <= i < x.len() ==> x[i] != '&' && x[i] != '<' && x[i] != '>'
}

/// Escaping quotes brings in no `<` or `>`.
proof fn lemma_quote_escaped_no_tags(x: Seq<char>)
    requires
        no_markup(x),
    ensures
        forall|i: int| 0 <= i < quote_escaped(x).len() ==> quote_escaped(x)[i] != '<' && quote_escaped(x)[i] != '>',
    decreases x.len(),
{
    reveal_strlit("&quot;");
    if x.len() > 0 {
        let rest = x.drop_first();
        assert forall|i: int| 0 <= i < rest.len() implies rest[i] != '&' && rest[i] != '<' && rest[i] != '>' by {
            assert(rest[i] == x[i + 1]);
        }
        lemma_quote_escaped_no_tags(rest);
        let head = if x[0] == '"' {
            "&quot;"@
        } else {
            seq![x[0]]
        };
        let q = quote_escaped(x);
        assert(q == head + quote_escaped(rest));
        assert forall|i: int| 0 <= i < q.len() implies q[i] != '<' && q[i] != '>' by {
            if i >= head.len() {
                assert(q[i] == quote_escaped(rest)[i - head.len()]);
            } else {
                assert(q[i] == head[i]);
            }
        }
    }
}

/// Reading a text without tags keeps it whole.
proof fn lemma_plain_state_no_tags(y: Seq<char>)
    requires
        forall|i: int| 0 <= i < y.len() ==> y[i] != '<' && y[i] != '>',
    ensures
        plain_state(y) == (y, false, Seq::<char>::empty()),
    decreases y.len(),
{
    if y.len() > 0 {
        let init = y.drop_last();
        assert forall|i: int| 0 <= i < init.len() implies init[i] != '<' && init[i] != '>' by {
            assert(init[i] == y[i]);
        }
        lemma_plain_state_no_tags(init);
        assert(y.last() == y[y.len() - 1]);
        assert(init.push(y.last()) =~= y);
    }
}

/// Decoding `&quot;` undoes escaping the quotes of a text without `&`.
proof fn lemma_unquote(x: Seq<char>)
    requires
        no_markup(x),
    ensures
        replace_all(quote_escaped(x), "&quot;"@, "\""@) == x,
    decreases x.len(),
{
    reveal_strlit("&quot;");
    reveal_strlit("\"");
    if x.len() > 0 {
        let rest = x.drop_first();
        assert forall|i: int| 0 <= i < rest.len() implies rest[i] != '&' && rest[i] != '<' && rest[i] != '>' by {
            assert(rest[i] == x[i + 1]);
        }
        lemma_unquote(rest);
        let q = quote_escaped(x);
        if x[0] == '"' {
            assert(q == "&quot;"@ + quote_escaped(rest));
            assert(starts_with(q, "&quot;"@));
            assert(q.skip(6) =~= quote_escaped(rest));
            assert(x =~= "\""@ + rest);
        } else {
            assert(q == seq![x[0]] + quote_escaped(rest));
            assert(!starts_with(q, "&quot;"@)) by {
                assert(q[0int + 0int] == x[0]);
            }
            assert(q.drop_first() =~= quote_escaped(rest));
            assert(x =~= seq![q[0]] + rest);
        }
    }
}

/// A pattern starting with `&` is not in a text without `&`.
proof fn lemma_no_amp_no_match(x: Seq<char>, p: Seq<char>)
    requires
        p.len() > 0,
        p[0] == '&',
        no_markup(x),
    ensures
        no_match(x, p),
{
    assert forall|i: int| !matches_at(x, p, i) by {
        if matches_at(x, p, i) {
            assert(x[i + 0] == p[0]);
        }
    }
}

/// Decoding the entities of a text without `&` changes nothing.
proof fn lemma_unescape_after_quotes(x: Seq<char>)
    requires
        no_markup(x),
    ensures
        replace_all(replace_all(replace_all(replace_all(replace_all(replace_all(replace_all(replace_all(
            replace_all(replace_all(replace_all(x, "&amp;"@, "&"@), "&lt;"@, "<"@), "&gt;"@, ">"@),
            "&#39;"@, "'"@), "&apos;"@, "'"@), "&nbsp;"@, " "@), "&mdash;"@, "\u{2014}"@), "&ndash;"@,
            "\u{2013}"@), "&laquo;"@, "\u{00AB}"@), "&raquo;"@, "\u{00BB}"@), "&hellip;"@, "\u{2026}"@) == x,
{
    reveal_strlit("&amp;");
    reveal_strlit("&lt;");
    reveal_strlit("&gt;");
    reveal_strlit("&#39;");
    reveal_strlit("&apos;");
    reveal_strlit("&nbsp;");
    reveal_strlit("&mdash;");
    reveal_strlit("&ndash;");
    reveal_strlit("&laquo;");
    reveal_strlit("&raquo;");
    reveal_strlit("&hellip;");
    lemma_no_amp_no_match(x, "&amp;"@);
    lemma_replace_identity(x, "&amp;"@, "&"@);
    lemma_no_amp_no_match(x, "&lt;"@);
    lemma_replace_identity(x, "&lt;"@, "<"@);
    lemma_no_amp_no_match(x, "&gt;"@);
    lemma_replace_identity(x, "&gt;"@, ">"@);
    lemma_no_amp_no_match(x, "&#39;"@);
    lemma_replace_identity(x, "&#39;"@, "'"@);
    lemma_no_amp_no_match(x, "&apos;"@);
    lemma_replace_identity(x, "&apos;"@, "'"@);
    lemma_no_amp_no_match(x, "&nbsp;"@);
    lemma_replace_identity(x, "&nbsp;"@, " "@);
    lemma_no_amp_no_match(x, "&mdash;"@);
    lemma_replace_identity(x, "&mdash;"@, "\u{2014}"@);
    lemma_no_amp_no_match(x, "&ndash;"@);
    lemma_replace_identity(x, "&ndash;"@, "\u{2013}"@);
    lemma_no_amp_no_match(x, "&laquo;"@);
    lemma_replace_identity(x, "&laquo;"@, "\u{00AB}"@);
    lemma_no_amp_no_match(x, "&raquo;"@);
    lemma_replace_identity(x, "&raquo;"@, "\u{00BB}"@);
    lemma_no_amp_no_match(x, "&hellip;"@);
    lemma_replace_identity(x, "&hellip;"@, "\u{2026}"@);
}

/// The plain text of a text without `&`, `<` or `>` whose quotes are
/// written as `&quot;` is the text itself, trimmed: the entity is decoded
/// back to `"`.
pub proof fn law_plain_text_decodes_quotes(x: Seq<char>)
    requires
        no_markup(x),
    ensures
        spec_html_to_plain_text(quote_escaped(x)) == crate::text::trim(x),
{
    lemma_quote_escaped_no_tags(x);
    lemma_plain_state_no_tags(quote_escaped(x));
    lemma_unquote(x);
    lemma_unescape_after_quotes(x);
}

} // verus!
