//! The shape of normalised text: what `normalize_text` makes of ASCII input.

use vstd::prelude::*;

use crate::content::{
    ascii_lower_char, ascii_lowercase, first_gt, is_ascii_text, lemma_first_gt_in_bounds,
    lemma_trim_start_shorter, lowercase, normalized, tags_replaced, whitespace_collapsed,
};
use crate::text::{is_white_space, trim, trim_end, trim_start};

verus! {

/// No `>` anywhere.
pub open spec fn no_gt(s: Seq<char>) -> bool {
    forall|i: int| 0 <= i < s.len() ==> #[trigger] s[i] != '>'
}

/// At position `i`, a `<` is not followed later by a `>` that would close a tag: either no `>`
/// follows, or one follows right away.
pub open spec fn tag_ok_at(s: Seq<char>, i: int) -> bool {
    s[i] == '<' ==> (first_gt(s.skip(i + 1)) is None || first_gt(s.skip(i + 1)) == Some(0nat))
}

/// The text holds nothing the tag pattern `<[^>]+>` matches.
pub open spec fn tag_free(s: Seq<char>) -> bool {
    forall|i: int| 0 <= i < s.len() ==> #[trigger] tag_ok_at(s, i)
}

/// At position `i`, white space is a single space.
pub open spec fn ws_ok_at(s: Seq<char>, i: int) -> bool {
    is_white_space(s[i]) ==> (s[i] == ' ' && (i + 1 < s.len() ==> !is_white_space(s[i + 1])))
}

/// The only white space is single spaces.
pub open spec fn single_spaced(s: Seq<char>) -> bool {
    forall|i: int| 0 <= i < s.len() ==> #[trigger] ws_ok_at(s, i)
}

/// The text neither starts nor ends with white space.
pub open spec fn trimmed_ends(s: Seq<char>) -> bool {
    s.len() > 0 ==> !is_white_space(s[0]) && !is_white_space(s[s.len() - 1])
}

/// All the shape properties at once.
pub open spec fn normal_shape(s: Seq<char>) -> bool {
    &&& is_ascii_text(s)
    &&& tag_free(s)
    &&& single_spaced(s)
    &&& trimmed_ends(s)
}

// ---------------------------------------------------------------------------------------------
// `first_gt`

proof fn lemma_first_gt_none(s: Seq<char>)
    ensures
        first_gt(s) is None <==> no_gt(s),
    decreases s.len(),
{
    if s.len() > 0 {
        lemma_first_gt_none(s.drop_first());
        if no_gt(s) {
            assert forall|i: int| 0 <= i < s.drop_first().len() implies #[trigger] s.drop_first()[i]
                != '>' by {
                assert(s.drop_first()[i] == s[i + 1]);
            }
        }
        if s[0] != '>' && no_gt(s.drop_first()) {
            assert forall|i: int| 0 <= i < s.len() implies #[trigger] s[i] != '>' by {
                if i > 0 {
                    assert(s[i] == s.drop_first()[i - 1]);
                }
            }
        }
        if s[0] == '>' {
            assert(!no_gt(s));
        }
    }
}

proof fn lemma_first_gt_zero(s: Seq<char>)
    ensures
        first_gt(s) == Some(0nat) <==> (s.len() > 0 && s[0] == '>'),
{
    if s.len() > 0 && s[0] != '>' {
        match first_gt(s.drop_first()) {
            Some(k) => {},
            None => {},
        }
    }
}

// ---------------------------------------------------------------------------------------------
// Closure under taking a first character, suffixes and prefixes

proof fn lemma_tag_free_cons(x: char, r: Seq<char>)
    requires
        tag_free(r),
        x == '<' ==> (no_gt(r) || (r.len() > 0 && r[0] == '>')),
    ensures
        tag_free(seq![x] + r),
{
    let s = seq![x] + r;
    assert forall|i: int| 0 <= i < s.len() implies #[trigger] tag_ok_at(s, i) by {
        if i == 0 {
            assert(s.skip(1) =~= r);
            lemma_first_gt_none(r);
            lemma_first_gt_zero(r);
        } else {
            assert(s[i] == r[i - 1]);
            assert(s.skip(i + 1) =~= r.skip(i));
            assert(tag_ok_at(r, i - 1));
        }
    }
}

proof fn lemma_single_spaced_cons(x: char, r: Seq<char>)
    requires
        single_spaced(r),
        is_white_space(x) ==> (x == ' ' && (r.len() > 0 ==> !is_white_space(r[0]))),
    ensures
        single_spaced(seq![x] + r),
{
    let s = seq![x] + r;
    assert forall|i: int| 0 <= i < s.len() implies #[trigger] ws_ok_at(s, i) by {
        if i > 0 {
            assert(s[i] == r[i - 1]);
            assert(ws_ok_at(r, i - 1));
            if i + 1 < s.len() {
                assert(s[i + 1] == r[i]);
            }
        } else if r.len() > 0 {
            assert(s[1] == r[0]);
        }
    }
}

proof fn lemma_suffix_closed(s: Seq<char>, k: int)
    requires
        0 <= k <= s.len(),
    ensures
        tag_free(s) ==> tag_free(s.skip(k)),
        single_spaced(s) ==> single_spaced(s.skip(k)),
        is_ascii_text(s) ==> is_ascii_text(s.skip(k)),
        no_gt(s) ==> no_gt(s.skip(k)),
{
    let t = s.skip(k);
    if tag_free(s) {
        assert forall|i: int| 0 <= i < t.len() implies #[trigger] tag_ok_at(t, i) by {
            assert(t[i] == s[k + i]);
            assert(t.skip(i + 1) =~= s.skip(k + i + 1));
            assert(tag_ok_at(s, k + i));
        }
    }
    if single_spaced(s) {
        assert forall|i: int| 0 <= i < t.len() implies #[trigger] ws_ok_at(t, i) by {
            assert(t[i] == s[k + i]);
            assert(ws_ok_at(s, k + i));
            if i + 1 < t.len() {
                assert(t[i + 1] == s[k + i + 1]);
            }
        }
    }
    if is_ascii_text(s) {
        assert forall|i: int| 0 <= i < t.len() implies (#[trigger] t[i]) as u32 <= 127 by {
            assert(t[i] == s[k + i]);
        }
    }
    if no_gt(s) {
        assert forall|i: int| 0 <= i < t.len() implies #[trigger] t[i] != '>' by {
            assert(t[i] == s[k + i]);
        }
    }
}

proof fn lemma_prefix_closed(s: Seq<char>, m: int)
    requires
        0 <= m <= s.len(),
    ensures
        tag_free(s) ==> tag_free(s.take(m)),
        single_spaced(s) ==> single_spaced(s.take(m)),
        is_ascii_text(s) ==> is_ascii_text(s.take(m)),
{
    let t = s.take(m);
    if tag_free(s) {
        assert forall|i: int| 0 <= i < t.len() implies #[trigger] tag_ok_at(t, i) by {
            assert(t[i] == s[i]);
            assert(tag_ok_at(s, i));
            if t[i] == '<' {
                let after = s.skip(i + 1);
                let cut = t.skip(i + 1);
                lemma_first_gt_none(after);
                lemma_first_gt_zero(after);
                lemma_first_gt_none(cut);
                lemma_first_gt_zero(cut);
                if no_gt(after) {
                    assert forall|j: int| 0 <= j < cut.len() implies #[trigger] cut[j] != '>' by {
                        assert(cut[j] == after[j]);
                    }
                } else if cut.len() > 0 {
                    assert(cut[0] == after[0]);
                } else {
                    assert(no_gt(cut));
                }
            }
        }
    }
    if single_spaced(s) {
        assert forall|i: int| 0 <= i < t.len() implies #[trigger] ws_ok_at(t, i) by {
            assert(t[i] == s[i]);
            assert(ws_ok_at(s, i));
            if i + 1 < t.len() {
                assert(t[i + 1] == s[i + 1]);
            }
        }
    }
    if is_ascii_text(s) {
        assert forall|i: int| 0 <= i < t.len() implies (#[trigger] t[i]) as u32 <= 127 by {
            assert(t[i] == s[i]);
        }
    }
}

// ---------------------------------------------------------------------------------------------
// Tag replacement

proof fn lemma_tags_output(t: Seq<char>)
    ensures
        tag_free(tags_replaced(t)),
        is_ascii_text(t) ==> is_ascii_text(tags_replaced(t)),
        no_gt(t) ==> no_gt(tags_replaced(t)),
        t.len() > 0 && t[0] != '<' ==> tags_replaced(t).len() > 0 && tags_replaced(t)[0] == t[0],
    decreases t.len(),
{
    if t.len() == 0 {
        assert(tags_replaced(t) =~= Seq::<char>::empty());
    } else {
        let d = t.drop_first();
        let out = tags_replaced(t);
        lemma_first_gt_in_bounds(d);
        lemma_first_gt_none(d);
        lemma_first_gt_zero(d);
        if t[0] == '<' && first_gt(d) is Some && first_gt(d)->0 >= 1 {
            let k: int = first_gt(d)->0 as int;
            let r = t.skip(k + 2);
            lemma_tags_output(r);
            lemma_suffix_closed(t, k + 2);
            assert(out == seq![' '] + tags_replaced(r));
            lemma_tag_free_cons(' ', tags_replaced(r));
            if is_ascii_text(t) {
                let o = seq![' '] + tags_replaced(r);
                assert forall|i: int| 0 <= i < o.len() implies (#[trigger] o[i]) as u32 <= 127 by {
                    if i > 0 {
                        assert(o[i] == tags_replaced(r)[i - 1]);
                    }
                }
            }
            if no_gt(t) {
                assert(d[k] == '>') by {
                    lemma_first_gt_at(d);
                }
                assert(t[k + 1] == d[k]);
            }
        } else {
            lemma_tags_output(d);
            assert(out == seq![t[0]] + tags_replaced(d));
            if t[0] == '<' {
                if no_gt(d) {
                    assert(no_gt(tags_replaced(d)));
                } else {
                    assert(first_gt(d) == Some(0nat));
                    assert(d[0] == '>');
                }
            }
            lemma_tag_free_cons(t[0], tags_replaced(d));
            lemma_suffix_closed(t, 1);
            assert(t.skip(1) =~= d);
            let o = seq![t[0]] + tags_replaced(d);
            if is_ascii_text(t) {
                assert forall|i: int| 0 <= i < o.len() implies (#[trigger] o[i]) as u32 <= 127 by {
                    if i > 0 {
                        assert(o[i] == tags_replaced(d)[i - 1]);
                    }
                }
            }
            if no_gt(t) {
                assert forall|i: int| 0 <= i < o.len() implies #[trigger] o[i] != '>' by {
                    if i > 0 {
                        assert(o[i] == tags_replaced(d)[i - 1]);
                    }
                }
            }
        }
    }
}

proof fn lemma_first_gt_at(s: Seq<char>)
    ensures
        first_gt(s) matches Some(k) ==> k < s.len() && s[k as int] == '>',
    decreases s.len(),
{
    if s.len() > 0 && s[0] != '>' {
        lemma_first_gt_at(s.drop_first());
        if first_gt(s.drop_first()) is Some {
            let k: int = first_gt(s.drop_first())->0 as int;
            assert(s[k + 1] == s.drop_first()[k]);
        }
    }
}

proof fn lemma_tags_identity(s: Seq<char>)
    requires
        tag_free(s),
    ensures
        tags_replaced(s) == s,
    decreases s.len(),
{
    if s.len() == 0 {
        assert(tags_replaced(s) =~= s);
    } else {
        let d = s.drop_first();
        lemma_suffix_closed(s, 1);
        assert(s.skip(1) =~= d);
        lemma_tags_identity(d);
        assert(tag_ok_at(s, 0));
        assert(tags_replaced(s) == seq![s[0]] + tags_replaced(d));
        assert(seq![s[0]] + d =~= s);
    }
}

// ---------------------------------------------------------------------------------------------
// Trimming

proof fn lemma_trim_start_suffix(s: Seq<char>)
    ensures
        trim_start(s).len() <= s.len(),
        trim_start(s) == s.skip(s.len() - trim_start(s).len()),
        trim_start(s).len() > 0 ==> !is_white_space(trim_start(s)[0]),
    decreases s.len(),
{
    if s.len() > 0 && is_white_space(s[0]) {
        let d = s.drop_first();
        lemma_trim_start_suffix(d);
        assert(d.skip(d.len() - trim_start(d).len()) =~= s.skip(s.len() - trim_start(d).len()));
    } else {
        assert(s.skip(0) =~= s);
    }
}

proof fn lemma_trim_end_prefix(s: Seq<char>)
    ensures
        trim_end(s).len() <= s.len(),
        trim_end(s) == s.take(trim_end(s).len() as int),
        trim_end(s).len() > 0 ==> !is_white_space(trim_end(s)[trim_end(s).len() - 1]),
    decreases s.len(),
{
    if s.len() > 0 && is_white_space(s.last()) {
        let d = s.drop_last();
        lemma_trim_end_prefix(d);
        assert(d.take(trim_end(d).len() as int) =~= s.take(trim_end(d).len() as int));
    } else {
        assert(s.take(s.len() as int) =~= s);
    }
}

/// What trimming keeps and what it adds.
pub proof fn lemma_trim_output(s: Seq<char>)
    ensures
        trimmed_ends(trim(s)),
        tag_free(s) ==> tag_free(trim(s)),
        single_spaced(s) ==> single_spaced(trim(s)),
        is_ascii_text(s) ==> is_ascii_text(trim(s)),
{
    let u = trim_start(s);
    lemma_trim_start_suffix(s);
    lemma_suffix_closed(s, s.len() - u.len());
    let c = trim_end(u);
    lemma_trim_end_prefix(u);
    lemma_prefix_closed(u, c.len() as int);
    if c.len() > 0 {
        assert(c[0] == u[0]);
    }
}

proof fn lemma_trim_identity(s: Seq<char>)
    requires
        trimmed_ends(s),
    ensures
        trim(s) == s,
{
    assert(trim_start(s) == s);
    assert(trim_end(s) == s);
}

// ---------------------------------------------------------------------------------------------
// White space collapsing

proof fn lemma_collapse_output(s: Seq<char>)
    ensures
        single_spaced(whitespace_collapsed(s)),
        tag_free(s) ==> tag_free(whitespace_collapsed(s)),
        is_ascii_text(s) ==> is_ascii_text(whitespace_collapsed(s)),
        no_gt(s) ==> no_gt(whitespace_collapsed(s)),
        s.len() > 0 && !is_white_space(s[0]) ==> whitespace_collapsed(s).len() > 0
            && whitespace_collapsed(s)[0] == s[0],
    decreases s.len(),
{
    if s.len() == 0 {
        assert(whitespace_collapsed(s) =~= Seq::<char>::empty());
    } else if is_white_space(s[0]) {
        let u = trim_start(s);
        lemma_trim_start_shorter(s);
        lemma_trim_start_suffix(s);
        lemma_suffix_closed(s, s.len() - u.len());
        lemma_collapse_output(u);
        let r = whitespace_collapsed(u);
        assert(whitespace_collapsed(s) == seq![' '] + r);
        assert(is_white_space(' '));
        lemma_single_spaced_cons(' ', r);
        if tag_free(s) {
            lemma_tag_free_cons(' ', r);
        }
        let o = seq![' '] + r;
        if is_ascii_text(s) {
            assert forall|i: int| 0 <= i < o.len() implies (#[trigger] o[i]) as u32 <= 127 by {
                if i > 0 {
                    assert(o[i] == r[i - 1]);
                }
            }
        }
        if no_gt(s) {
            assert forall|i: int| 0 <= i < o.len() implies #[trigger] o[i] != '>' by {
                if i > 0 {
                    assert(o[i] == r[i - 1]);
                }
            }
        }
    } else {
        let d = s.drop_first();
        lemma_collapse_output(d);
        lemma_suffix_closed(s, 1);
        assert(s.skip(1) =~= d);
        let r = whitespace_collapsed(d);
        assert(whitespace_collapsed(s) == seq![s[0]] + r);
        lemma_single_spaced_cons(s[0], r);
        lemma_first_gt_none(d);
        lemma_first_gt_zero(d);
        if s[0] == '<' && tag_free(s) {
            assert(tag_ok_at(s, 0));
            assert(s.skip(1) =~= d);
            if !no_gt(d) {
                assert(d[0] == '>');
                assert(!is_white_space(d[0]));
            }
        }
        if tag_free(s) {
            lemma_tag_free_cons(s[0], r);
        }
        let o = seq![s[0]] + r;
        if is_ascii_text(s) {
            assert forall|i: int| 0 <= i < o.len() implies (#[trigger] o[i]) as u32 <= 127 by {
                if i > 0 {
                    assert(o[i] == r[i - 1]);
                }
            }
        }
        if no_gt(s) {
            assert forall|i: int| 0 <= i < o.len() implies #[trigger] o[i] != '>' by {
                if i > 0 {
                    assert(o[i] == r[i - 1]);
                }
            }
        }
    }
}

proof fn lemma_collapse_identity(s: Seq<char>)
    requires
        single_spaced(s),
    ensures
        whitespace_collapsed(s) == s,
    decreases s.len(),
{
    if s.len() > 0 {
        let d = s.drop_first();
        lemma_suffix_closed(s, 1);
        assert(s.skip(1) =~= d);
        lemma_collapse_identity(d);
        if is_white_space(s[0]) {
            assert(ws_ok_at(s, 0));
            assert(trim_start(s) == trim_start(d));
            if d.len() > 0 {
                assert(d[0] == s[1]);
            }
            assert(trim_start(d) == d);
            assert(seq![' '] + d =~= s);
        } else {
            assert(seq![s[0]] + d =~= s);
        }
    } else {
        assert(whitespace_collapsed(s) =~= s);
    }
}

// ---------------------------------------------------------------------------------------------
// ASCII lowercasing

proof fn lemma_lower_char(c: char)
    ensures
        65 <= c as u32 <= 90 ==> ascii_lower_char(c) as u32 == c as u32 + 32,
        !(65 <= c as u32 <= 90) ==> ascii_lower_char(c) == c,
        is_white_space(ascii_lower_char(c)) == is_white_space(c),
        ascii_lower_char(c) == '<' <==> c == '<',
        ascii_lower_char(c) == '>' <==> c == '>',
        ascii_lower_char(c) == ' ' <==> c == ' ',
        ascii_lower_char(ascii_lower_char(c)) == ascii_lower_char(c),
{
    if 65 <= c as u32 <= 90 {
        let l = ((c as u32) + 32) as char;
        assert(l as u32 == c as u32 + 32);
    }
}

proof fn lemma_first_gt_lower(s: Seq<char>)
    ensures
        first_gt(ascii_lowercase(s)) == first_gt(s),
    decreases s.len(),
{
    if s.len() > 0 {
        assert(ascii_lowercase(s).drop_first() =~= ascii_lowercase(s.drop_first()));
        lemma_lower_char(s[0]);
        lemma_first_gt_lower(s.drop_first());
    }
}

proof fn lemma_lower_output(s: Seq<char>)
    ensures
        is_ascii_text(s) ==> is_ascii_text(ascii_lowercase(s)),
        tag_free(s) ==> tag_free(ascii_lowercase(s)),
        single_spaced(s) ==> single_spaced(ascii_lowercase(s)),
        trimmed_ends(s) ==> trimmed_ends(ascii_lowercase(s)),
        ascii_lowercase(ascii_lowercase(s)) == ascii_lowercase(s),
{
    let l = ascii_lowercase(s);
    assert forall|i: int| 0 <= i < s.len() implies #[trigger] l[i] == ascii_lower_char(s[i])
        && is_white_space(l[i]) == is_white_space(s[i]) && (l[i] == '<' <==> s[i] == '<') && (
    l[i] == ' ' <==> s[i] == ' ') && (s[i] as u32 <= 127 ==> l[i] as u32 <= 127) by {
        lemma_lower_char(s[i]);
    }
    if tag_free(s) {
        assert forall|i: int| 0 <= i < l.len() implies #[trigger] tag_ok_at(l, i) by {
            assert(tag_ok_at(s, i));
            assert(l.skip(i + 1) =~= ascii_lowercase(s.skip(i + 1)));
            lemma_first_gt_lower(s.skip(i + 1));
        }
    }
    if single_spaced(s) {
        assert forall|i: int| 0 <= i < l.len() implies #[trigger] ws_ok_at(l, i) by {
            assert(ws_ok_at(s, i));
            if i + 1 < l.len() {
                assert(l[i + 1] == ascii_lower_char(s[i + 1]));
                lemma_lower_char(s[i + 1]);
            }
        }
    }
    if is_ascii_text(s) {
        assert forall|i: int| 0 <= i < l.len() implies (#[trigger] l[i]) as u32 <= 127 by {
            assert(s[i] as u32 <= 127);
        }
    }
    if trimmed_ends(s) && s.len() > 0 {
        assert(l[s.len() - 1] == ascii_lower_char(s[s.len() - 1]));
    }
    assert forall|i: int| 0 <= i < l.len() implies #[trigger] ascii_lowercase(l)[i] == l[i] by {
        lemma_lower_char(s[i]);
    }
    assert(ascii_lowercase(l) =~= l);
}

// ---------------------------------------------------------------------------------------------
// The law

/// Normalising ASCII text yields a normal form: the result is trimmed, its only white space is
/// single spaces, it is lowercase, and normalising it again changes nothing. Absent text
/// normalises to the empty text.
pub proof fn law_normalized_ascii_text_is_a_normal_form(text: Seq<char>)
    requires
        is_ascii_text(text),
    ensures
        trim(normalized(Some(text))) == normalized(Some(text)),
        single_spaced(normalized(Some(text))),
        ascii_lowercase(normalized(Some(text))) == normalized(Some(text)),
        normalized(Some(normalized(Some(text)))) == normalized(Some(text)),
        normalized(None) == Seq::<char>::empty(),
{
    let a = tags_replaced(text);
    lemma_tags_output(text);
    let b = whitespace_collapsed(a);
    lemma_collapse_output(a);
    let c = trim(b);
    lemma_trim_output(b);
    assert(lowercase(c) == ascii_lowercase(c));
    let n = ascii_lowercase(c);
    lemma_lower_output(c);
    assert(normalized(Some(text)) == n);
    assert(normal_shape(n));
    lemma_trim_identity(n);
    lemma_tags_identity(n);
    lemma_collapse_identity(n);
    assert(normalized(Some(n)) == lowercase(n));
}

} // verus!
