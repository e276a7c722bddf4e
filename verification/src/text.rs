//! Text rules: which characters count as white space, trimming, and
//! searching a string for a fragment.

use vstd::prelude::*;

verus! {

/// Whether `c` has the Unicode `White_Space` property (the characters that
/// `char::is_whitespace` accepts): tab, line feed, vertical tab, form feed,
/// carriage return, space, next line, no-break space, ogham space mark, the
/// spaces from en quad to hair space, line and paragraph separator, narrow
/// no-break space, medium mathematical space and ideographic space.
pub open spec fn is_white_space(c: char) -> bool {
    ||| '\u{9}' <= c && c <= '\u{d}'
    ||| c == ' '
    ||| c == '\u{85}'
    ||| c == '\u{a0}'
    ||| c == '\u{1680}'
    ||| '\u{2000}' <= c && c <= '\u{200a}'
    ||| c == '\u{2028}'
    ||| c == '\u{2029}'
    ||| c == '\u{202f}'
    ||| c == '\u{205f}'
    ||| c == '\u{3000}'
}

/// Whether `c` is white space.
pub fn white_space(c: char) -> (r: bool)
    ensures
        r == is_white_space(c),
{
    match c {
        '\u{9}'..='\u{d}' | ' ' | '\u{85}' | '\u{a0}' | '\u{1680}' | '\u{2000}'..='\u{200a}'
        | '\u{2028}' | '\u{2029}' | '\u{202f}' | '\u{205f}' | '\u{3000}' => true,
        _ => false,
    }
}

/// `s` without its leading white space.
pub open spec fn trim_start(s: Seq<char>) -> Seq<char>
    decreases s.len(),
{
    if s.len() > 0 && is_white_space(s[0]) {
        trim_start(s.drop_first())
    } else {
        s
    }
}

/// `s` without its trailing white space.
pub open spec fn trim_end(s: Seq<char>) -> Seq<char>
    decreases s.len(),
{
    if s.len() > 0 && is_white_space(s.last()) {
        trim_end(s.drop_last())
    } else {
        s
    }
}

/// `s` without leading and trailing white space.
pub open spec fn trimmed(s: Seq<char>) -> Seq<char> {
    trim_end(trim_start(s))
}

proof fn lemma_trim_start_skip(s: Seq<char>, i: int)
    requires
        0 <= i < s.len(),
        is_white_space(s[i]),
    ensures
        trim_start(s.skip(i)) == trim_start(s.skip(i + 1)),
{
    assert(s.skip(i).drop_first() =~= s.skip(i + 1));
}

proof fn lemma_trim_end_take(s: Seq<char>, j: int)
    requires
        0 < j <= s.len(),
        is_white_space(s[j - 1]),
    ensures
        trim_end(s.take(j)) == trim_end(s.take(j - 1)),
{
    assert(s.take(j).drop_last() =~= s.take(j - 1));
}

/// The string `text` with its leading and trailing white space removed.
pub fn trim(text: &str) -> (r: String)
    ensures
        r@ == trimmed(text@),
{
    let n = text.unicode_len();
    let mut i: usize = 0;
    assert(text@.skip(0) =~= text@);
    while i < n && white_space(text.get_char(i))
        invariant
            n == text@.len(),
            i <= n,
            trim_start(text@) == trim_start(text@.skip(i as int)),
        decreases n - i,
    {
        proof {
            lemma_trim_start_skip(text@, i as int);
        }
        i = i + 1;
    }
    let ghost rest = text@.skip(i as int);
    assert(trim_start(text@) == rest) by {
        if i < n {
            assert(rest[0] == text@[i as int]);
        }
    }
    let mut j: usize = n;
    assert(rest.take(rest.len() as int) =~= rest);
    while j > i && white_space(text.get_char(j - 1))
        invariant
            n == text@.len(),
            i <= j <= n,
            rest == text@.skip(i as int),
            trim_end(rest) == trim_end(rest.take(j - i)),
        decreases j,
    {
        proof {
            assert(rest[j - i - 1] == text@[j - 1]);
            lemma_trim_end_take(rest, j - i);
        }
        j = j - 1;
    }
    let ghost kept = rest.take(j - i);
    assert(trim_end(kept) == kept) by {
        if j > i {
            assert(kept.last() == text@[j - 1]);
        }
    }
    assert(kept =~= text@.subrange(i as int, j as int));
    let part = text.substring_char(i, j);
    part.to_owned()
}

proof fn lemma_trim_start_shape(s: Seq<char>)
    ensures
        exists|p: int|
            0 <= p <= s.len() && trim_start(s) == s.skip(p) && (forall|k: int|
                0 <= k < p ==> is_white_space(#[trigger] s[k])) && (p < s.len() ==> !is_white_space(
                s[p],
            )),
    decreases s.len(),
{
    if s.len() > 0 && is_white_space(s[0]) {
        let rest = s.drop_first();
        lemma_trim_start_shape(rest);
        let p = choose|p: int|
            0 <= p <= rest.len() && trim_start(rest) == rest.skip(p) && (forall|k: int|
                0 <= k < p ==> is_white_space(#[trigger] rest[k])) && (p < rest.len()
                ==> !is_white_space(rest[p]));
        assert(rest.skip(p) =~= s.skip(p + 1));
        assert forall|k: int| 0 <= k < p + 1 implies is_white_space(#[trigger] s[k]) by {
            if k > 0 {
                assert(s[k] == rest[k - 1]);
            }
        }
        if p + 1 < s.len() {
            assert(s[p + 1] == rest[p]);
        }
    } else {
        assert(s.skip(0) =~= s);
    }
}

proof fn lemma_trim_end_shape(s: Seq<char>)
    ensures
        exists|q: int|
            0 <= q <= s.len() && trim_end(s) == s.take(q) && (forall|k: int|
                q <= k < s.len() ==> is_white_space(#[trigger] s[k])) && (q > 0 ==> !is_white_space(
                s[q - 1],
            )),
    decreases s.len(),
{
    if s.len() > 0 && is_white_space(s.last()) {
        let rest = s.drop_last();
        lemma_trim_end_shape(rest);
        let q = choose|q: int|
            0 <= q <= rest.len() && trim_end(rest) == rest.take(q) && (forall|k: int|
                q <= k < rest.len() ==> is_white_space(#[trigger] rest[k])) && (q > 0
                ==> !is_white_space(rest[q - 1]));
        assert(rest.take(q) =~= s.take(q));
        assert forall|k: int| q <= k < s.len() implies is_white_space(#[trigger] s[k]) by {
            if k < s.len() - 1 {
                assert(s[k] == rest[k]);
            }
        }
        if q > 0 {
            assert(s[q - 1] == rest[q - 1]);
        }
    } else {
        assert(s.take(s.len() as int) =~= s);
    }
}

/// Trimming keeps exactly one run of consecutive characters of the text:
/// everything before it and after it is white space, and the run neither
/// starts nor ends with white space. Nothing inside is dropped or changed.
pub proof fn law_trimmed_is_the_inner_part(s: Seq<char>)
    ensures
        exists|i: int, j: int|
            0 <= i <= j <= s.len() && trimmed(s) == s.subrange(i, j) && (forall|k: int|
                0 <= k < i ==> is_white_space(#[trigger] s[k])) && (forall|k: int|
                j <= k < s.len() ==> is_white_space(#[trigger] s[k])) && (i < j ==> !is_white_space(
                s[i],
            ) && !is_white_space(s[j - 1])),
{
    lemma_trim_start_shape(s);
    let p = choose|p: int|
        0 <= p <= s.len() && trim_start(s) == s.skip(p) && (forall|k: int|
            0 <= k < p ==> is_white_space(#[trigger] s[k])) && (p < s.len() ==> !is_white_space(s[p]));
    let u = s.skip(p);
    lemma_trim_end_shape(u);
    let q = choose|q: int|
        0 <= q <= u.len() && trim_end(u) == u.take(q) && (forall|k: int|
            q <= k < u.len() ==> is_white_space(#[trigger] u[k])) && (q > 0 ==> !is_white_space(
            u[q - 1],
        ));
    assert(u.take(q) =~= s.subrange(p, p + q));
    assert forall|k: int| p + q <= k < s.len() implies is_white_space(#[trigger] s[k]) by {
        assert(s[k] == u[k - p]);
    }
    if q > 0 {
        assert(u[0] == s[p]);
        assert(u[q - 1] == s[p + q - 1]);
    }
    assert(0 <= p <= p + q <= s.len() && trimmed(s) == s.subrange(p, p + q));
}

/// A text that neither starts nor ends with white space is kept whole.
pub proof fn law_trim_keeps_untrimmed_text(s: Seq<char>)
    requires
        s.len() == 0 || (!is_white_space(s[0]) && !is_white_space(s.last())),
    ensures
        trimmed(s) == s,
{
    law_trimmed_is_the_inner_part(s);
    let (i, j) = choose|i: int, j: int|
        0 <= i <= j <= s.len() && trimmed(s) == s.subrange(i, j) && (forall|k: int|
            0 <= k < i ==> is_white_space(#[trigger] s[k])) && (forall|k: int|
            j <= k < s.len() ==> is_white_space(#[trigger] s[k])) && (i < j ==> !is_white_space(s[i])
            && !is_white_space(s[j - 1]));
    if s.len() > 0 {
        assert(!is_white_space(s[s.len() - 1]));
        if i > 0 {
            assert(is_white_space(s[0]));
        }
        if j < s.len() {
            assert(is_white_space(s[s.len() - 1]));
        }
    }
    assert(s.subrange(i, j) =~= s);
}

/// The characters that count as white space are exactly those of Unicode's
/// `White_Space` property.
pub proof fn law_white_space_characters(c: char)
    ensures
        is_white_space(c) <==> (c == '\u{9}' || c == '\u{a}' || c == '\u{b}' || c == '\u{c}' || c
            == '\u{d}' || c == '\u{20}' || c == '\u{85}' || c == '\u{a0}' || c == '\u{1680}' || c
            == '\u{2000}' || c == '\u{2001}' || c == '\u{2002}' || c == '\u{2003}' || c == '\u{2004}'
            || c == '\u{2005}' || c == '\u{2006}' || c == '\u{2007}' || c == '\u{2008}' || c
            == '\u{2009}' || c == '\u{200a}' || c == '\u{2028}' || c == '\u{2029}' || c == '\u{202f}'
            || c == '\u{205f}' || c == '\u{3000}'),
{
}

/// Whether `needle` occurs in `hay` as a run of consecutive characters.
pub open spec fn occurs_in(needle: Seq<char>, hay: Seq<char>) -> bool {
    exists|i: int| 0 <= i <= hay.len() - needle.len() && #[trigger] hay.subrange(i, i + needle.len()) == needle
}

/// A fragment occurs in any text that holds it, at any position, and never
/// in a text shorter than itself.
pub proof fn law_occurrences(needle: Seq<char>, before: Seq<char>, after: Seq<char>, hay: Seq<char>)
    ensures
        occurs_in(needle, before + needle + after),
        occurs_in(needle, hay) ==> needle.len() <= hay.len(),
        occurs_in(needle, hay) ==> occurs_in(needle, before + hay + after),
{
    let h = before + needle + after;
    let b: int = before.len() as int;
    assert(h.subrange(b, b + needle.len()) =~= needle);
    if occurs_in(needle, hay) {
        let i = choose|i: int|
            0 <= i <= hay.len() - needle.len() && #[trigger] hay.subrange(i, i + needle.len()) == needle;
        let h2 = before + hay + after;
        let c: int = b + i;
        assert(h2.subrange(c, c + needle.len()) =~= needle);
    }
}

/// The characters of `text`, in order.
pub(crate) fn chars_of(text: &str) -> (r: Vec<char>)
    ensures
        r@ == text@,
{
    let n = text.unicode_len();
    let mut out: Vec<char> = Vec::new();
    let mut i: usize = 0;
    while i < n
        invariant
            n == text@.len(),
            i <= n,
            out@ == text@.take(i as int),
        decreases n - i,
    {
        out.push(text.get_char(i));
        i = i + 1;
        assert(out@ =~= text@.take(i as int));
    }
    assert(text@.take(n as int) =~= text@);
    out
}

/// Whether `hay[at..at + needle.len()]` equals `needle`.
fn matches_at(hay: &Vec<char>, needle: &Vec<char>, at: usize) -> (r: bool)
    requires
        at + needle@.len() <= hay@.len(),
    ensures
        r == (hay@.subrange(at as int, at + needle@.len()) == needle@),
{
    let m = needle.len();
    let n = hay.len();
    let mut k: usize = 0;
    while k < m
        invariant
            m == needle@.len(),
            n == hay@.len(),
            at + m <= hay@.len(),
            k <= m,
            forall|j: int| 0 <= j < k ==> hay@[at + j] == needle@[j],
        decreases m - k,
    {
        if hay[at + k] != needle[k] {
            assert(hay@.subrange(at as int, at + m)[k as int] != needle@[k as int]);
            return false;
        }
        k = k + 1;
    }
    assert(hay@.subrange(at as int, at + m) =~= needle@);
    true
}

/// Whether `needle` occurs in `text`.
pub fn contains(text: &str, needle: &str) -> (r: bool)
    ensures
        r == occurs_in(needle@, text@),
{
    let hay = chars_of(text);
    let pat = chars_of(needle);
    if pat.len() == 0 {
        assert(text@.subrange(0int, 0int + needle@.len()) =~= needle@);
        return true;
    }
    let n = hay.len();
    let mut i: usize = 0;
    while i < n && pat.len() <= n - i
        invariant
            hay@ == text@,
            pat@ == needle@,
            pat@.len() > 0,
            n == hay@.len(),
            i <= n,
            forall|j: int| 0 <= j < i ==> #[trigger] hay@.subrange(j, j + pat@.len()) != pat@,
        decreases n - i,
    {
        if matches_at(&hay, &pat, i) {
            return true;
        }
        i = i + 1;
    }
    false
}

} // verus!
