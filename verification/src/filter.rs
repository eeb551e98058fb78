//! Text filters for option lists: which labels a typed filter keeps.
use crate::text::{
    ascii_lower, ascii_lowercase, is_ascii_text, lemma_words_concat, lowercase, split_whitespace,
    str_chars, to_lowercase, words,
};
use vstd::prelude::*;

verus! {

/// Whether `needle` occurs in `hay` as a run of consecutive characters (the
/// empty text occurs in every text).
pub open spec fn contains_seq(hay: Seq<char>, needle: Seq<char>) -> bool {
    exists|i: int|
        0 <= i <= hay.len() - needle.len() && #[trigger] hay.subrange(i, i + needle.len())
            == needle
}

/// Whether one filter term keeps a (lower-cased) label: a term `-word`
/// keeps the labels that do not contain `word` (a lone `-` keeps none); any
/// other term keeps the labels that contain it.
pub open spec fn term_keeps(label: Seq<char>, term: Seq<char>) -> bool {
    if term.len() > 0 && term[0] == '-' {
        term.len() > 1 && !contains_seq(label, term.drop_first())
    } else {
        contains_seq(label, term)
    }
}

/// Whether a filter keeps a label: an empty filter keeps everything;
/// otherwise every whitespace-separated term of the lower-cased filter must
/// keep the lower-cased label.
pub open spec fn filter_keeps(label: Seq<char>, filter: Seq<char>) -> bool {
    filter.len() == 0 || forall|k: int|
        0 <= k < words(lowercase(filter)).len() ==> term_keeps(
            lowercase(label),
            #[trigger] words(lowercase(filter))[k],
        )
}

/// `filter_keeps` for ASCII text, where lower-casing is the ASCII one:
/// an empty filter keeps everything; otherwise every term of the
/// lower-cased filter must keep the lower-cased label.
pub open spec fn filter_keeps_ascii(label: Seq<char>, filter: Seq<char>) -> bool {
    filter.len() == 0 || forall|k: int|
        0 <= k < words(ascii_lowercase(filter)).len() ==> term_keeps(
            ascii_lowercase(label),
            #[trigger] words(ascii_lowercase(filter))[k],
        )
}

/// The ASCII lower-case of two texts joined by a space is the two
/// lower-cased texts joined by a space.
pub proof fn lemma_ascii_lowercase_join(a: Seq<char>, b: Seq<char>)
    ensures
        ascii_lowercase(a + seq![' '] + b) == ascii_lowercase(a) + seq![' '] + ascii_lowercase(b),
{
    assert(ascii_lower(' ') == ' ');
    assert(ascii_lowercase(a + seq![' '] + b) =~= ascii_lowercase(a) + seq![' '] + ascii_lowercase(
        b,
    ));
}

/// A filter keeps a label exactly when every one of its lower-cased terms
/// keeps the lower-cased label.
proof fn lemma_filter_keeps_terms(label: Seq<char>, filter: Seq<char>)
    ensures
        filter_keeps_ascii(label, filter) == (forall|t: Seq<char>|
            #[trigger] words(ascii_lowercase(filter)).contains(t) ==> term_keeps(
                ascii_lowercase(label),
                t,
            )),
{
    let ws = words(ascii_lowercase(filter));
    let l = ascii_lowercase(label);
    if filter.len() == 0 {
        assert(ascii_lowercase(filter).len() == 0);
        assert(ws =~= seq![]);
    }
    if forall|t: Seq<char>| #[trigger] ws.contains(t) ==> term_keeps(l, t) {
        assert forall|k: int| 0 <= k < ws.len() implies term_keeps(l, #[trigger] ws[k]) by {
            assert(ws.contains(ws[k]));
        }
    }
    if filter_keeps_ascii(label, filter) {
        assert forall|t: Seq<char>| #[trigger] ws.contains(t) implies term_keeps(l, t) by {
            let k = choose|k: int| 0 <= k < ws.len() && ws[k] == t;
            assert(term_keeps(l, ws[k]));
        }
    }
}

/// Joining two filters with a space keeps exactly the labels that both
/// filters keep (for ASCII text).
pub proof fn lemma_filter_join(label: Seq<char>, a: Seq<char>, b: Seq<char>)
    ensures
        filter_keeps_ascii(label, a + seq![' '] + b) == (filter_keeps_ascii(label, a)
            && filter_keeps_ascii(label, b)),
{
    let j = a + seq![' '] + b;
    lemma_ascii_lowercase_join(a, b);
    lemma_words_concat(ascii_lowercase(a), ascii_lowercase(b));
    let wa = words(ascii_lowercase(a));
    let wb = words(ascii_lowercase(b));
    let wj = words(ascii_lowercase(j));
    assert(wj == wa + wb);
    lemma_filter_keeps_terms(label, a);
    lemma_filter_keeps_terms(label, b);
    lemma_filter_keeps_terms(label, j);
    assert(j.len() > 0);
    let l = ascii_lowercase(label);
    assert forall|t: Seq<char>| #[trigger] wj.contains(t) <==> (wa.contains(t) || wb.contains(t)) by {
        if wj.contains(t) {
            let k = choose|k: int| 0 <= k < wj.len() && wj[k] == t;
            if k < wa.len() {
                assert(wa[k] == t);
            } else {
                assert(wb[k - wa.len()] == t);
            }
        }
        if wa.contains(t) {
            let k = choose|k: int| 0 <= k < wa.len() && wa[k] == t;
            assert(wj[k] == t);
        }
        if wb.contains(t) {
            let k = choose|k: int| 0 <= k < wb.len() && wb[k] == t;
            assert(wj[wa.len() + k] == t);
        }
    }
    if filter_keeps_ascii(label, j) {
        assert forall|t: Seq<char>| #[trigger] wa.contains(t) implies term_keeps(l, t) by {
            assert(wj.contains(t));
        }
        assert forall|t: Seq<char>| #[trigger] wb.contains(t) implies term_keeps(l, t) by {
            assert(wj.contains(t));
        }
    }
    if filter_keeps_ascii(label, a) && filter_keeps_ascii(label, b) {
        assert forall|t: Seq<char>| #[trigger] wj.contains(t) implies term_keeps(l, t) by {
            if wa.contains(t) {
            } else {
                assert(wb.contains(t));
            }
        }
    }
}

/// Two filters with the same lower-cased terms, in whatever order and
/// however often each is repeated, keep the same labels (for ASCII text).
pub proof fn lemma_filter_term_order(label: Seq<char>, f1: Seq<char>, f2: Seq<char>)
    requires
        words(ascii_lowercase(f1)).to_set() == words(ascii_lowercase(f2)).to_set(),
    ensures
        filter_keeps_ascii(label, f1) == filter_keeps_ascii(label, f2),
{
    let w1 = words(ascii_lowercase(f1));
    let w2 = words(ascii_lowercase(f2));
    lemma_filter_keeps_terms(label, f1);
    lemma_filter_keeps_terms(label, f2);
    let l = ascii_lowercase(label);
    assert forall|t: Seq<char>| #[trigger] w1.contains(t) <==> w2.contains(t) by {
        assert(w1.to_set().contains(t) == w1.contains(t));
        assert(w2.to_set().contains(t) == w2.contains(t));
    }
    if filter_keeps_ascii(label, f1) {
        assert forall|t: Seq<char>| #[trigger] w2.contains(t) implies term_keeps(l, t) by {
            assert(w1.contains(t));
        }
    }
    if filter_keeps_ascii(label, f2) {
        assert forall|t: Seq<char>| #[trigger] w1.contains(t) implies term_keeps(l, t) by {
            assert(w2.contains(t));
        }
    }
}

/// Swapping the two halves of a filter joined by a space keeps the same
/// labels (for ASCII text).
pub proof fn lemma_filter_swap(label: Seq<char>, a: Seq<char>, b: Seq<char>)
    ensures
        filter_keeps_ascii(label, a + seq![' '] + b) == filter_keeps_ascii(label, b + seq![' '] + a),
{
    lemma_filter_join(label, a, b);
    lemma_filter_join(label, b, a);
}

/// Changing the ASCII letter case of the label or the filter changes
/// nothing: texts with the same ASCII lower-case are kept alike.
pub proof fn lemma_filter_ignores_case(l1: Seq<char>, l2: Seq<char>, f1: Seq<char>, f2: Seq<char>)
    requires
        ascii_lowercase(l1) == ascii_lowercase(l2),
        ascii_lowercase(f1) == ascii_lowercase(f2),
    ensures
        filter_keeps_ascii(l1, f1) == filter_keeps_ascii(l2, f2),
{
    assert(f1.len() == ascii_lowercase(f1).len());
    assert(f2.len() == ascii_lowercase(f2).len());
}

/// Whether `needle` occurs in `hay`.
pub fn contains_chars(hay: &[char], needle: &[char]) -> (r: bool)
    ensures
        r == contains_seq(hay@, needle@),
{
    let n: usize = needle.len();
    let h: usize = hay.len();
    if n > h {
        return false;
    }
    let mut i: usize = 0;
    while i <= h - n
        invariant
            n == needle@.len(),
            h == hay@.len(),
            n <= h,
            i <= h - n + 1,
            forall|j: int| 0 <= j < i ==> #[trigger] hay@.subrange(j, j + n) != needle@,
        decreases h - n + 1 - i,
    {
        let mut k: usize = 0;
        while k < n && hay[i + k] == needle[k]
            invariant
                n == needle@.len(),
                h == hay@.len(),
                i + n <= h,
                k <= n,
                forall|t: int| 0 <= t < k ==> hay@[i + t] == needle@[t],
            decreases n - k,
        {
            k = k + 1;
        }
        if k == n {
            assert(hay@.subrange(i as int, i + n) =~= needle@);
            return true;
        }
        assert(hay@.subrange(i as int, i + n)[k as int] != needle@[k as int]);
        i = i + 1;
    }
    false
}

/// Whether the filter text keeps the option label `label`: an empty filter
/// keeps every label; otherwise each whitespace-separated term of the
/// lower-cased filter must occur in the lower-cased label, except that a
/// term starting with `-` asks for the rest of the term not to occur (a
/// lone `-` keeps nothing).
pub fn matches_filter(label: &str, filter: &str) -> (r: bool)
    ensures
        r == filter_keeps(label@, filter@),
        is_ascii_text(label@) && is_ascii_text(filter@) ==> r == filter_keeps_ascii(label@, filter@),
{
    let f = str_chars(filter);
    if f.len() == 0 {
        return true;
    }
    let l = to_lowercase(str_chars(label).as_slice());
    let terms = split_whitespace(to_lowercase(f.as_slice()).as_slice());
    let ghost ws = words(lowercase(filter@));
    let mut k: usize = 0;
    while k < terms.len()
        invariant
            k <= terms@.len(),
            terms@.len() == ws.len(),
            forall|j: int| 0 <= j < terms@.len() ==> #[trigger] terms@[j]@ == ws[j],
            l@ == lowercase(label@),
            ws == words(lowercase(filter@)),
            filter@.len() > 0,
            is_ascii_text(label@) && is_ascii_text(filter@) ==> lowercase(label@) == ascii_lowercase(
                label@,
            ) && lowercase(filter@) == ascii_lowercase(filter@),
            forall|j: int| 0 <= j < k ==> term_keeps(l@, #[trigger] ws[j]),
        decreases terms@.len() - k,
    {
        let t = &terms[k];
        let keeps = if t.len() > 0 && t[0] == '-' {
            let (_, rest) = t.as_slice().split_at(1);
            proof {
                assert(rest@ =~= t@.drop_first());
            }
            t.len() > 1 && !contains_chars(l.as_slice(), rest)
        } else {
            contains_chars(l.as_slice(), t.as_slice())
        };
        assert(terms@[k as int]@ == ws[k as int]);
        assert(keeps == term_keeps(l@, ws[k as int]));
        if !keeps {
            assert(filter@.len() > 0);
            assert(!term_keeps(lowercase(label@), words(lowercase(filter@))[k as int]));
            return false;
        }
        k = k + 1;
    }
    true
}

/// Whether the lower-cased `label` contains the lower-cased `filter` (an
/// empty lower-cased filter keeps every label); the rule of the filter
/// box of a filter dropdown and of the morph menu.
pub fn label_contains_filter(label: &str, filter: &str) -> (r: bool)
    ensures
        r == (lowercase(filter@).len() == 0 || contains_seq(lowercase(label@), lowercase(filter@))),
        is_ascii_text(label@) && is_ascii_text(filter@) ==> r == (filter@.len() == 0 || contains_seq(
            ascii_lowercase(label@),
            ascii_lowercase(filter@),
        )),
{
    let f = to_lowercase(str_chars(filter).as_slice());
    if f.len() == 0 {
        return true;
    }
    let l = to_lowercase(str_chars(label).as_slice());
    contains_chars(l.as_slice(), f.as_slice())
}

} // verus!
