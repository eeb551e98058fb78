//! Line and word handling shared by the text asset formats.
//!
//! Files are read as bytes and split into lines the way a buffered reader's
//! `lines()` does; each line is then decoded as UTF-8 and handled as a
//! sequence of `char`s.
use vstd::prelude::*;
use vstd::utf8::*;
use vstd::slice::{slice_subrange, slice_to_vec};

verus! {

// ---------------------------------------------------------------------------
// Lines
// ---------------------------------------------------------------------------

/// Index of the first `\n` at or after `i`, or `b.len()` when there is none.
pub open spec fn line_end(b: Seq<u8>, i: int) -> int
    decreases b.len() - i,
{
    if i >= b.len() || i < 0 {
        i
    } else if b[i] == 10u8 {
        i
    } else {
        line_end(b, i + 1)
    }
}

/// The text of the line that starts at `i` and ends (exclusive) at `e`: the
/// bytes before the `\n`, with one `\r` removed when it directly precedes a `\n`.
pub open spec fn line_text(b: Seq<u8>, i: int, e: int) -> Seq<u8> {
    if e < b.len() && e > i && b[e - 1] == 13u8 {
        b.subrange(i, e - 1)
    } else {
        b.subrange(i, e)
    }
}

/// The lines of `b` from offset `i` on.
pub open spec fn lines_from(b: Seq<u8>, i: int) -> Seq<Seq<u8>>
    decreases b.len() - i,
{
    if i < 0 || i >= b.len() {
        seq![]
    } else {
        let e = line_end(b, i);
        if e >= b.len() || e < i {
            seq![line_text(b, i, e)]
        } else {
            seq![line_text(b, i, e)] + lines_from(b, e + 1)
        }
    }
}

/// The lines of a byte buffer, as a buffered reader's `lines()` yields them
/// (before UTF-8 decoding): split at each `\n`, without the `\n` and without a
/// `\r` right before it; a last line without `\n` counts when it is not empty.
pub open spec fn lines(b: Seq<u8>) -> Seq<Seq<u8>> {
    lines_from(b, 0)
}

pub proof fn lemma_line_end_bounds(b: Seq<u8>, i: int)
    requires
        0 <= i <= b.len(),
    ensures
        i <= line_end(b, i) <= b.len(),
        line_end(b, i) < b.len() ==> b[line_end(b, i)] == 10u8,
        forall|k: int| i <= k < line_end(b, i) ==> b[k] != 10u8,
    decreases b.len() - i,
{
    if i < b.len() && b[i] != 10u8 {
        lemma_line_end_bounds(b, i + 1);
    }
}

/// The decoded lines, given that each line holds valid UTF-8.
pub open spec fn decoded(ls: Seq<Seq<u8>>) -> Seq<Seq<char>> {
    ls.map_values(|l: Seq<u8>| decode_utf8(l))
}

/// The views of a vector of character vectors.
pub open spec fn views(v: Seq<Vec<char>>) -> Seq<Seq<char>> {
    v.map_values(|x: Vec<char>| x@)
}

/// Decodes UTF-8 with `std::str::from_utf8` and collects the characters.
/// Claims: the result is present exactly when the bytes are valid UTF-8, and
/// then holds the characters that the bytes encode.
#[verifier::external_body]
fn decode_utf8_chars(bytes: &[u8]) -> (r: Option<Vec<char>>)
    ensures
        r is Some <==> valid_utf8(bytes@),
        r matches Some(v) ==> v@ == decode_utf8(bytes@),
{
    match std::str::from_utf8(bytes) {
        Ok(s) => Some(s.chars().collect()),
        Err(_) => None,
    }
}

/// How many lines, from the first on, are valid UTF-8.
pub open spec fn valid_count(ls: Seq<Seq<u8>>) -> nat
    decreases ls.len(),
{
    if ls.len() == 0 || !valid_utf8(ls[0]) {
        0
    } else {
        1 + valid_count(ls.drop_first())
    }
}

/// `valid_count` is the index of the first invalid line (or the length).
pub proof fn lemma_valid_count(ls: Seq<Seq<u8>>, k: int)
    requires
        0 <= k <= ls.len(),
        forall|j: int| 0 <= j < k ==> valid_utf8(#[trigger] ls[j]),
        k == ls.len() || !valid_utf8(ls[k]),
    ensures
        valid_count(ls) == k,
    decreases k,
{
    if k > 0 {
        assert forall|j: int| 0 <= j < k - 1 implies valid_utf8(#[trigger] ls.drop_first()[j]) by {
            assert(ls.drop_first()[j] == ls[j + 1]);
        }
        if k < ls.len() {
            assert(ls.drop_first()[k - 1] == ls[k]);
        }
        lemma_valid_count(ls.drop_first(), k - 1);
    }
}

/// Splits a buffer into decoded lines, stopping at the first line that is
/// not valid UTF-8. Returns the decoded lines before it, and whether every
/// line was valid.
pub fn decode_lines(b: &[u8]) -> (r: (Vec<Vec<char>>, bool))
    ensures
        lines(b@).len() <= b@.len(),
        r.0.len() <= lines(b@).len(),
        forall|k: int| 0 <= k < r.0.len() ==> valid_utf8(#[trigger] lines(b@)[k]),
        views(r.0@) == decoded(lines(b@).take(r.0.len() as int)),
        r.1 <==> r.0.len() == lines(b@).len(),
        r.0.len() == valid_count(lines(b@)),
        !r.1 ==> !valid_utf8(lines(b@)[r.0.len() as int]),
{
    let n = b.len();
    let mut out: Vec<Vec<char>> = Vec::new();
    let mut i: usize = 0;
    let ghost all = lines(b@);
    proof {
        lemma_lines_len(b@, 0);
    }
    while i < n
        invariant
            n == b.len(),
            i <= n,
            all == lines(b@),
            all.len() <= b@.len(),
            out.len() + lines_from(b@, i as int).len() == all.len(),
            lines_from(b@, i as int) == all.skip(out.len() as int),
            forall|k: int| 0 <= k < out.len() ==> valid_utf8(#[trigger] all[k]),
            views(out@) == decoded(all.take(out.len() as int)),
        decreases n - i,
    {
        let mut e: usize = i;
        while e < n && b[e] != 10u8
            invariant
                i <= e <= n,
                n == b.len(),
                forall|k: int| i <= k < e ==> b@[k] != 10u8,
            decreases n - e,
        {
            e = e + 1;
        }
        proof {
            lemma_line_end_bounds(b@, i as int);
            lemma_line_end_unique(b@, i as int, e as int);
        }
        let stop: usize = if e < n && e > i && b[e - 1] == 13u8 { e - 1 } else { e };
        let piece = slice_subrange(b, i, stop);
        let ghost k = out.len() as int;
        assert(all.skip(k)[0] == all[k]);
        assert(piece@ == all[k]);
        match decode_utf8_chars(piece) {
            Some(v) => {
                proof {
                    assert(views(out@.push(v)) =~= views(out@).push(v@));
                    assert(all.take(k + 1) =~= all.take(k).push(all[k]));
                    assert(decoded(all.take(k + 1)) =~= decoded(all.take(k)).push(
                        decode_utf8(all[k]),
                    ));
                }
                out.push(v);
                proof {
                    if e < n {
                        assert(all.skip(k + 1) =~= all.skip(k).drop_first());
                    } else {
                        assert(lines_from(b@, (e + 1) as int) =~= Seq::<Seq<u8>>::empty());
                    }
                }
                if e >= n {
                    i = n;
                } else {
                    i = e + 1;
                }
            },
            None => {
                proof {
                    lemma_valid_count(all, out.len() as int);
                }
                return (out, false);
            },
        }
    }
    proof {
        assert(all.skip(out.len() as int).len() == 0);
        lemma_valid_count(all, out.len() as int);
    }
    (out, true)
}

proof fn lemma_lines_len(b: Seq<u8>, i: int)
    requires
        0 <= i <= b.len(),
    ensures
        lines_from(b, i).len() <= b.len() - i,
    decreases b.len() - i,
{
    if i < b.len() {
        lemma_line_end_bounds(b, i);
        let e = line_end(b, i);
        if e < b.len() {
            lemma_lines_len(b, e + 1);
        }
    }
}

proof fn lemma_line_end_unique(b: Seq<u8>, i: int, e: int)
    requires
        0 <= i <= e <= b.len(),
        forall|k: int| i <= k < e ==> b[k] != 10u8,
        e == b.len() || b[e] == 10u8,
    ensures
        line_end(b, i) == e,
    decreases e - i,
{
    if i < e {
        lemma_line_end_unique(b, i + 1, e);
    }
}

/// Why a text asset could not be read.
#[derive(Clone, Copy, Debug, PartialEq, Eq)]
pub enum TextError {
    /// The line (counted from 1) is not valid UTF-8.
    InvalidUtf8 { line: usize },
}

/// The strings' character sequences.
pub open spec fn string_views(v: Seq<String>) -> Seq<Seq<char>> {
    v.map_values(|x: String| x@)
}

// ---------------------------------------------------------------------------
// Characters and literals
// ---------------------------------------------------------------------------

/// The characters of a string slice, read with its `chars()` iterator.
pub fn str_chars(s: &str) -> (r: Vec<char>)
    ensures
        r@ == s@,
{
    let mut out: Vec<char> = Vec::new();
    broadcast use vstd::string::group_string_axioms;
    for c in it: s.chars()
        invariant
            out@ == it.seq().take(it.index() as int),
            it.seq() == s@,
    {
        assert(it.seq().take(it.index() + 1) =~= it.seq().take(it.index() as int).push(c));
        out.push(c);
    }
    out
}

/// The characters of a `String`.
pub fn string_chars(s: &String) -> (r: Vec<char>)
    ensures
        r@ == s@,
{
    str_chars(s.as_str())
}

/// Appends the characters `s` to `out`.
pub fn push_chars(out: &mut Vec<char>, s: &[char])
    ensures
        final(out)@ == old(out)@ + s@,
{
    let mut i: usize = 0;
    while i < s.len()
        invariant
            i <= s@.len(),
            out@ == old(out)@ + s@.take(i as int),
        decreases s@.len() - i,
    {
        out.push(s[i]);
        assert(s@.take(i + 1) =~= s@.take(i as int).push(s@[i as int]));
        i = i + 1;
    }
    assert(s@.take(i as int) =~= s@);
}

/// Collects characters into a `String` (`String: FromIterator<char>`).
/// Claims: the string holds exactly these characters, in order.
#[verifier::external_body]
pub fn chars_to_string(v: &[char]) -> (r: String)
    ensures
        r@ == v@,
{
    v.iter().collect()
}

/// What `str::to_lowercase` gives for a text (Unicode lower-case mapping).
pub uninterp spec fn lowercase(s: Seq<char>) -> Seq<char>;

/// Whether every character of `s` is ASCII.
pub open spec fn is_ascii_text(s: Seq<char>) -> bool {
    forall|i: int| 0 <= i < s.len() ==> (#[trigger] s[i] as u32) < 128
}

/// The ASCII lower-case of a character: `A`-`Z` become `a`-`z`, every other
/// character stays.
pub open spec fn ascii_lower(c: char) -> char {
    if 0x41 <= (c as u32) <= 0x5a {
        ((c as u32) + 32) as char
    } else {
        c
    }
}

/// The ASCII lower-case of a text, character by character.
pub open spec fn ascii_lowercase(s: Seq<char>) -> Seq<char> {
    s.map_values(|c: char| ascii_lower(c))
}

/// Lower-cases text with `str::to_lowercase`.
/// Claims: the result is `lowercase` of the input, a function of it alone;
/// and for text made only of ASCII characters it is the ASCII lower-case
/// (Unicode maps `A`-`Z` to `a`-`z` and leaves every other ASCII character,
/// whitespace included, as it is).
#[verifier::external_body]
pub fn to_lowercase(s: &[char]) -> (r: Vec<char>)
    ensures
        r@ == lowercase(s@),
        is_ascii_text(s@) ==> r@ == ascii_lowercase(s@),
{
    let text: String = s.iter().collect();
    text.to_lowercase().chars().collect()
}

/// Whether the characters `s` spell the literal `lit`.
pub fn eq_str(s: &[char], lit: &str) -> (r: bool)
    ensures
        r == (s@ == lit@),
{
    let p = str_chars(lit);
    if p.len() != s.len() {
        return false;
    }
    let mut i: usize = 0;
    while i < p.len()
        invariant
            p@ == lit@,
            p.len() == s.len(),
            i <= p.len(),
            forall|k: int| 0 <= k < i ==> s@[k] == p@[k],
        decreases p.len() - i,
    {
        if s[i] != p[i] {
            return false;
        }
        i = i + 1;
    }
    assert(s@ =~= p@);
    true
}

/// Whether `s` begins with `p`.
pub open spec fn has_prefix(s: Seq<char>, p: Seq<char>) -> bool {
    p.len() <= s.len() && s.take(p.len() as int) == p
}

/// Whether `s` begins with the literal `lit` (`str::starts_with`).
pub fn starts_with(s: &[char], lit: &str) -> (r: bool)
    ensures
        r == has_prefix(s@, lit@),
{
    let p = str_chars(lit);
    if p.len() > s.len() {
        return false;
    }
    let mut i: usize = 0;
    while i < p.len()
        invariant
            p@ == lit@,
            p.len() <= s.len(),
            i <= p.len(),
            forall|k: int| 0 <= k < i ==> s@[k] == p@[k],
        decreases p.len() - i,
    {
        if s[i] != p[i] {
            assert(s@.take(p.len() as int)[i as int] != p@[i as int]);
            return false;
        }
        i = i + 1;
    }
    assert(s@.take(p.len() as int) =~= p@);
    true
}

// ---------------------------------------------------------------------------
// Whitespace, trimming and words
// ---------------------------------------------------------------------------

/// Whether `c` has the Unicode `White_Space` property, which is what
/// `char::is_whitespace`, `str::trim` and `str::split_whitespace` test.
pub open spec fn is_ws(c: char) -> bool {
    let u = c as u32;
    ||| 0x09 <= u <= 0x0d
    ||| u == 0x20
    ||| u == 0x85
    ||| u == 0xa0
    ||| u == 0x1680
    ||| 0x2000 <= u <= 0x200a
    ||| u == 0x2028
    ||| u == 0x2029
    ||| u == 0x202f
    ||| u == 0x205f
    ||| u == 0x3000
}

/// Whether `c` is a whitespace character.
pub fn is_whitespace(c: char) -> (r: bool)
    ensures
        r == is_ws(c),
{
    let u = c as u32;
    (0x09 <= u && u <= 0x0d) || u == 0x20 || u == 0x85 || u == 0xa0 || u == 0x1680 || (0x2000
        <= u && u <= 0x200a) || u == 0x2028 || u == 0x2029 || u == 0x202f || u == 0x205f || u
        == 0x3000
}

/// First index at or after `i` that is not whitespace (or `s.len()`).
pub open spec fn skip_ws(s: Seq<char>, i: int) -> int
    decreases s.len() - i,
{
    if i < 0 || i >= s.len() {
        i
    } else if is_ws(s[i]) {
        skip_ws(s, i + 1)
    } else {
        i
    }
}

/// The end (exclusive) of `s.take(j)` once trailing whitespace is dropped.
pub open spec fn back_ws(s: Seq<char>, j: int) -> int
    decreases j,
{
    if j <= 0 || j > s.len() {
        j
    } else if is_ws(s[j - 1]) {
        back_ws(s, j - 1)
    } else {
        j
    }
}

/// `s` without leading and trailing whitespace (`str::trim`).
pub open spec fn trim(s: Seq<char>) -> Seq<char> {
    let a = skip_ws(s, 0);
    let e = back_ws(s, s.len() as int);
    if e <= a {
        seq![]
    } else {
        s.subrange(a, e)
    }
}

proof fn lemma_skip_ws(s: Seq<char>, i: int, a: int)
    requires
        0 <= i <= a <= s.len(),
        forall|k: int| i <= k < a ==> is_ws(s[k]),
        a == s.len() || !is_ws(s[a]),
    ensures
        skip_ws(s, i) == a,
    decreases a - i,
{
    if i < a {
        lemma_skip_ws(s, i + 1, a);
    }
}

proof fn lemma_back_ws(s: Seq<char>, j: int, e: int)
    requires
        0 <= e <= j <= s.len(),
        forall|k: int| e <= k < j ==> is_ws(s[k]),
        e == 0 || !is_ws(s[e - 1]),
    ensures
        back_ws(s, j) == e,
    decreases j - e,
{
    if e < j {
        lemma_back_ws(s, j - 1, e);
    }
}

/// `s` without leading and trailing whitespace.
pub fn trim_chars(s: &[char]) -> (r: Vec<char>)
    ensures
        r@ == trim(s@),
{
    let n = s.len();
    let mut a: usize = 0;
    while a < n && is_whitespace(s[a])
        invariant
            n == s.len(),
            a <= n,
            forall|k: int| 0 <= k < a ==> is_ws(s@[k]),
        decreases n - a,
    {
        a = a + 1;
    }
    proof {
        lemma_skip_ws(s@, 0, a as int);
    }
    let mut e: usize = n;
    while e > a && is_whitespace(s[e - 1])
        invariant
            n == s.len(),
            a <= e <= n,
            forall|k: int| e <= k < n ==> is_ws(s@[k]),
        decreases e,
    {
        e = e - 1;
    }
    let mut out: Vec<char> = Vec::new();
    if e == a {
        // everything from `a` on is whitespace; find where trailing whitespace starts
        let mut e2: usize = a;
        while e2 > 0 && is_whitespace(s[e2 - 1])
            invariant
                e2 <= a <= n,
                n == s.len(),
                forall|k: int| e2 <= k < n ==> is_ws(s@[k]),
            decreases e2,
        {
            e2 = e2 - 1;
        }
        proof {
            lemma_back_ws(s@, n as int, e2 as int);
        }
        return out;
    }
    proof {
        lemma_back_ws(s@, n as int, e as int);
    }
    let mut k: usize = a;
    while k < e
        invariant
            a <= k <= e <= n,
            n == s.len(),
            out@ == s@.subrange(a as int, k as int),
        decreases e - k,
    {
        out.push(s[k]);
        assert(out@ =~= s@.subrange(a as int, (k + 1) as int));
        k = k + 1;
    }
    out
}

/// End (exclusive) of the run of non-whitespace that starts at `i`.
pub open spec fn word_end(s: Seq<char>, i: int) -> int
    decreases s.len() - i,
{
    if i < 0 || i >= s.len() {
        i
    } else if is_ws(s[i]) {
        i
    } else {
        word_end(s, i + 1)
    }
}

/// The whitespace-separated words of `s` from index `i` on.
pub open spec fn words_from(s: Seq<char>, i: int) -> Seq<Seq<char>>
    decreases s.len() - i,
{
    if i < 0 || i >= s.len() {
        seq![]
    } else if is_ws(s[i]) {
        words_from(s, i + 1)
    } else {
        let e = word_end(s, i);
        if e <= i || e > s.len() {
            seq![]
        } else {
            seq![s.subrange(i, e)] + words_from(s, e)
        }
    }
}

/// The words of `s` (`str::split_whitespace`): the maximal runs of
/// non-whitespace characters, in order.
pub open spec fn words(s: Seq<char>) -> Seq<Seq<char>> {
    words_from(s, 0)
}

proof fn lemma_word_end(s: Seq<char>, i: int, e: int)
    requires
        0 <= i <= e <= s.len(),
        forall|k: int| i <= k < e ==> !is_ws(s[k]),
        e == s.len() || is_ws(s[e]),
    ensures
        word_end(s, i) == e,
    decreases e - i,
{
    if i < e {
        lemma_word_end(s, i + 1, e);
    }
}

/// Whether `w` is a word: not empty, and without whitespace.
pub open spec fn is_word(w: Seq<char>) -> bool {
    w.len() > 0 && forall|m: int| 0 <= m < w.len() ==> !is_ws(#[trigger] w[m])
}

/// A word never is empty and never holds whitespace.
pub proof fn lemma_words_shape(s: Seq<char>, i: int)
    requires
        0 <= i <= s.len(),
    ensures
        forall|k: int| 0 <= k < words_from(s, i).len() ==> is_word(#[trigger] words_from(s, i)[k]),
    decreases s.len() - i,
{
    if i == s.len() {
        assert(words_from(s, i).len() == 0);
    } else {
        if is_ws(s[i]) {
            lemma_words_shape(s, i + 1);
            assert(words_from(s, i) == words_from(s, i + 1));
        } else {
            let e = word_end(s, i);
            lemma_word_end_bounds(s, i);
            lemma_words_shape(s, e);
            let w = words_from(s, i);
            assert(e > i);
            assert(w == seq![s.subrange(i, e)] + words_from(s, e));
            assert(is_word(s.subrange(i, e)));
            assert forall|k: int| 0 <= k < w.len() implies is_word(#[trigger] w[k]) by {
                if k == 0 {
                    assert(w[k] == s.subrange(i, e));
                } else {
                    assert(w[k] == words_from(s, e)[k - 1]);
                }
            }
        }
    }
}

proof fn lemma_word_end_bounds(s: Seq<char>, i: int)
    requires
        0 <= i <= s.len(),
    ensures
        i <= word_end(s, i) <= s.len(),
        forall|k: int| i <= k < word_end(s, i) ==> !is_ws(s[k]),
        word_end(s, i) == s.len() || is_ws(s[word_end(s, i)]),
    decreases s.len() - i,
{
    if i < s.len() && !is_ws(s[i]) {
        lemma_word_end_bounds(s, i + 1);
    }
}

proof fn lemma_word_end_shift(x: Seq<char>, y: Seq<char>, j: int)
    requires
        0 <= j <= y.len(),
    ensures
        word_end(x + y, x.len() + j) == x.len() + word_end(y, j),
    decreases y.len() - j,
{
    let s = x + y;
    if j < y.len() {
        assert(s[x.len() + j] == y[j]);
        if !is_ws(y[j]) {
            lemma_word_end_shift(x, y, j + 1);
        }
    }
}

/// Words of a text that another text is put in front of, from a position
/// in the second text on, are that text's words.
proof fn lemma_words_shift(x: Seq<char>, y: Seq<char>, j: int)
    requires
        0 <= j <= y.len(),
    ensures
        words_from(x + y, x.len() + j) == words_from(y, j),
    decreases y.len() - j,
{
    let s = x + y;
    if j < y.len() {
        assert(s[x.len() + j] == y[j]);
        if is_ws(y[j]) {
            lemma_words_shift(x, y, j + 1);
        } else {
            lemma_word_end_shift(x, y, j);
            lemma_word_end_bounds(y, j);
            let e = word_end(y, j);
            assert(word_end(y, j) == word_end(y, j + 1));
            lemma_word_end_bounds(y, j + 1);
            lemma_words_shift(x, y, e);
            assert(s.subrange(x.len() + j, x.len() + e) =~= y.subrange(j, e));
        }
    }
}

proof fn lemma_word_end_prefix(x: Seq<char>, y: Seq<char>, i: int)
    requires
        0 <= i <= x.len(),
    ensures
        word_end(x + seq![' '] + y, i) == word_end(x, i),
    decreases x.len() - i,
{
    let s = x + seq![' '] + y;
    if i == x.len() {
        assert(s[i] == ' ');
        assert(is_ws(' '));
    } else {
        assert(s[i] == x[i]);
        if !is_ws(x[i]) {
            lemma_word_end_prefix(x, y, i + 1);
        }
    }
}

proof fn lemma_words_prefix(x: Seq<char>, y: Seq<char>, i: int)
    requires
        0 <= i <= x.len(),
    ensures
        words_from(x + seq![' '] + y, i) == words_from(x, i) + words_from(
            x + seq![' '] + y,
            x.len() + 1int,
        ),
    decreases x.len() - i,
{
    let s = x + seq![' '] + y;
    if i == x.len() {
        assert(s[i] == ' ');
        assert(is_ws(' '));
        assert(words_from(x, i) =~= seq![]);
        assert(words_from(s, i) == words_from(s, i + 1));
        assert(seq![] + words_from(s, x.len() + 1int) =~= words_from(s, x.len() + 1int));
    } else {
        assert(s[i] == x[i]);
        if is_ws(x[i]) {
            lemma_words_prefix(x, y, i + 1);
        } else {
            lemma_word_end_prefix(x, y, i);
            lemma_word_end_bounds(x, i + 1);
            assert(word_end(x, i) == word_end(x, i + 1));
            let e = word_end(x, i);
            lemma_words_prefix(x, y, e);
            assert(s.subrange(i, e) =~= x.subrange(i, e));
            assert(words_from(s, i) == seq![s.subrange(i, e)] + words_from(s, e));
            assert(words_from(x, i) == seq![x.subrange(i, e)] + words_from(x, e));
            assert(seq![x.subrange(i, e)] + (words_from(x, e) + words_from(s, x.len() + 1int)) =~= (
            seq![x.subrange(i, e)] + words_from(x, e)) + words_from(s, x.len() + 1int));
        }
    }
}

/// The words of two texts joined by a space are the first text's words
/// followed by the second's.
pub proof fn lemma_words_concat(x: Seq<char>, y: Seq<char>)
    ensures
        words(x + seq![' '] + y) == words(x) + words(y),
{
    lemma_words_prefix(x, y, 0);
    lemma_words_shift(x + seq![' '], y, 0);
    assert((x + seq![' ']) + y =~= x + seq![' '] + y);
    assert((x + seq![' ']).len() == x.len() + 1);
}

/// A text without whitespace is its own only word.
pub proof fn lemma_words_single(s: Seq<char>)
    requires
        s.len() > 0,
        forall|k: int| 0 <= k < s.len() ==> !is_ws(#[trigger] s[k]),
    ensures
        words(s) == seq![s],
{
    lemma_word_end(s, 0, s.len() as int);
    assert(s.subrange(0, s.len() as int) =~= s);
    assert(words_from(s, s.len() as int) =~= seq![]);
    assert(seq![s] + seq![] =~= seq![s]);
}

/// The whitespace-separated words of `s`.
pub fn split_whitespace(s: &[char]) -> (r: Vec<Vec<char>>)
    ensures
        views(r@) == words(s@),
        r@.len() == words(s@).len(),
        forall|k: int| 0 <= k < r@.len() ==> #[trigger] r@[k]@ == words(s@)[k],
{
    let n = s.len();
    let mut out: Vec<Vec<char>> = Vec::new();
    let mut i: usize = 0;
    while i < n
        invariant
            n == s.len(),
            i <= n,
            views(out@) + words_from(s@, i as int) == words(s@),
        decreases n - i,
    {
        if is_whitespace(s[i]) {
            i = i + 1;
        } else {
            let mut e: usize = i;
            let mut w: Vec<char> = Vec::new();
            while e < n && !is_whitespace(s[e])
                invariant
                    i <= e <= n,
                    n == s.len(),
                    forall|k: int| i <= k < e ==> !is_ws(s@[k]),
                    w@ == s@.subrange(i as int, e as int),
                decreases n - e,
            {
                w.push(s[e]);
                assert(w@ =~= s@.subrange(i as int, (e + 1) as int));
                e = e + 1;
            }
            proof {
                lemma_word_end(s@, i as int, e as int);
                assert(views(out@.push(w)) =~= views(out@).push(w@));
                assert(views(out@).push(w@) + words_from(s@, e as int) =~= views(out@) + (seq![
                    w@,
                ] + words_from(s@, e as int)));
            }
            out.push(w);
            i = e;
        }
    }
    assert(views(out@) + words_from(s@, i as int) =~= views(out@));
    assert forall|k: int| 0 <= k < out@.len() implies #[trigger] out@[k]@ == words(s@)[k] by {
        assert(views(out@)[k] == out@[k]@);
    }
    out
}

/// Index of the first `' '` at or after `i` (or `s.len()`).
pub open spec fn space_index(s: Seq<char>, i: int) -> int
    decreases s.len() - i,
{
    if i < 0 || i >= s.len() {
        i
    } else if s[i] == ' ' {
        i
    } else {
        space_index(s, i + 1)
    }
}

/// `str::split_once(' ')`: the text before and after the first space.
pub open spec fn split_once_space(s: Seq<char>) -> Option<(Seq<char>, Seq<char>)> {
    let k = space_index(s, 0);
    if 0 <= k < s.len() {
        Some((s.take(k), s.skip(k + 1)))
    } else {
        None
    }
}

proof fn lemma_space_index(s: Seq<char>, i: int, k: int)
    requires
        0 <= i <= k <= s.len(),
        forall|m: int| i <= m < k ==> s[m] != ' ',
        k == s.len() || s[k] == ' ',
    ensures
        space_index(s, i) == k,
    decreases k - i,
{
    if i < k {
        lemma_space_index(s, i + 1, k);
    }
}

/// `space_index` finds the first space at or after `i`.
pub proof fn lemma_space_index_found(s: Seq<char>, i: int)
    requires
        0 <= i <= s.len(),
    ensures
        i <= space_index(s, i) <= s.len(),
        space_index(s, i) < s.len() ==> s[space_index(s, i)] == ' ',
        forall|m: int| i <= m < space_index(s, i) ==> s[m] != ' ',
    decreases s.len() - i,
{
    if i < s.len() && s[i] != ' ' {
        lemma_space_index_found(s, i + 1);
    }
}

/// Splits `s` at its first space.
pub fn split_once_space_chars(s: &[char]) -> (r: Option<(Vec<char>, Vec<char>)>)
    ensures
        match r {
            Some((a, b)) => split_once_space(s@) == Some((a@, b@)),
            None => split_once_space(s@) is None,
        },
{
    let n = s.len();
    let mut k: usize = 0;
    while k < n && s[k] != ' '
        invariant
            k <= n,
            n == s.len(),
            forall|m: int| 0 <= m < k ==> s@[m] != ' ',
        decreases n - k,
    {
        k = k + 1;
    }
    proof {
        lemma_space_index(s@, 0, k as int);
    }
    if k == n {
        return None;
    }
    let a = slice_to_vec(slice_subrange(s, 0, k));
    let b = slice_to_vec(slice_subrange(s, k + 1, n));
    assert(a@ =~= s@.take(k as int));
    assert(b@ =~= s@.skip(k + 1));
    Some((a, b))
}

// ---------------------------------------------------------------------------
// Unsigned integers
// ---------------------------------------------------------------------------

/// Why text is not an unsigned integer (the kinds of `ParseIntError` that
/// an unsigned parse can give).
#[derive(Clone, Copy, Debug, PartialEq, Eq)]
pub enum IntErrorKind {
    Empty,
    InvalidDigit,
    PosOverflow,
}

pub open spec fn is_digit(c: char) -> bool {
    0x30 <= (c as u32) <= 0x39
}

pub open spec fn digit_value(c: char) -> nat {
    ((c as u32) - 0x30) as nat
}

/// Reads decimal digits `d[i..]` onto `acc`, as an unsigned parse does:
/// the first character that is not a digit is an error, and so is a value
/// above `max`, whichever comes first.
pub open spec fn fold_digits(d: Seq<char>, i: int, acc: nat, max: nat) -> Result<nat, IntErrorKind>
    decreases d.len() - i,
{
    if i < 0 || i >= d.len() {
        Ok(acc)
    } else if !is_digit(d[i]) {
        Err(IntErrorKind::InvalidDigit)
    } else if acc * 10 + digit_value(d[i]) > max {
        Err(IntErrorKind::PosOverflow)
    } else {
        fold_digits(d, i + 1, acc * 10 + digit_value(d[i]), max)
    }
}

/// `FromStr` for an unsigned integer type whose largest value is `max`:
/// an optional `+`, then one or more decimal digits.
pub open spec fn parse_uint_spec(s: Seq<char>, max: nat) -> Result<nat, IntErrorKind> {
    if s.len() == 0 {
        Err(IntErrorKind::Empty)
    } else if s.len() == 1 && (s[0] == '+' || s[0] == '-') {
        Err(IntErrorKind::InvalidDigit)
    } else if s[0] == '+' {
        fold_digits(s, 1, 0, max)
    } else {
        fold_digits(s, 0, 0, max)
    }
}

proof fn lemma_fold_digits_bound(d: Seq<char>, i: int, acc: nat, max: nat)
    requires
        acc <= max,
    ensures
        fold_digits(d, i, acc, max) matches Ok(v) ==> v <= max,
    decreases d.len() - i,
{
    if 0 <= i < d.len() && is_digit(d[i]) && acc * 10 + digit_value(d[i]) <= max {
        lemma_fold_digits_bound(d, i + 1, acc * 10 + digit_value(d[i]), max);
    }
}

/// A successful parse is never above `max`.
pub proof fn lemma_parse_uint_bound(s: Seq<char>, max: nat)
    ensures
        parse_uint_spec(s, max) matches Ok(v) ==> v <= max,
{
    lemma_fold_digits_bound(s, 0, 0, max);
    lemma_fold_digits_bound(s, 1, 0, max);
}

/// Parses an unsigned decimal integer no larger than `max`.
pub fn parse_uint(s: &[char], max: u64) -> (r: Result<u64, IntErrorKind>)
    ensures
        r matches Ok(v) ==> v <= max,
        match parse_uint_spec(s@, max as nat) {
            Ok(v) => r == Ok::<u64, IntErrorKind>(v as u64),
            Err(e) => r == Err::<u64, IntErrorKind>(e),
        },
{
    let n = s.len();
    if n == 0 {
        return Err(IntErrorKind::Empty);
    }
    if n == 1 && (s[0] == '+' || s[0] == '-') {
        return Err(IntErrorKind::InvalidDigit);
    }
    let mut i: usize = if s[0] == '+' { 1 } else { 0 };
    let ghost start = i as int;
    let mut acc: u64 = 0;
    while i < n
        invariant
            n == s.len(),
            i <= n,
            acc <= max,
            fold_digits(s@, i as int, acc as nat, max as nat) == parse_uint_spec(s@, max as nat),
        decreases n - i,
    {
        let c = s[i];
        let u = c as u32;
        if u < 0x30 || u > 0x39 {
            return Err(IntErrorKind::InvalidDigit);
        }
        let d = (u - 0x30) as u64;
        if d > max || acc > (max - d) / 10 {
            assert(acc * 10 + d > max) by (nonlinear_arith)
                requires
                    d > max || acc > (max - d) / 10,
            ;
            return Err(IntErrorKind::PosOverflow);
        }
        assert(acc * 10 + d <= max) by (nonlinear_arith)
            requires
                acc <= (max - d) / 10,
                d <= 9,
        ;
        acc = acc * 10 + d;
        i = i + 1;
    }
    Ok(acc)
}

/// `s.parse::<u32>().unwrap_or(0)`.
pub open spec fn u32_or_zero(s: Seq<char>) -> u32 {
    match parse_uint_spec(s, u32::MAX as nat) {
        Ok(v) => v as u32,
        Err(_) => 0,
    }
}

/// Parses a `u32`, giving 0 for text that is not one.
pub fn parse_u32_or_zero(s: &[char]) -> (r: u32)
    ensures
        r == u32_or_zero(s@),
{
    match parse_u32(s) {
        Ok(v) => v,
        Err(_) => 0,
    }
}

/// Parses a `u32` (`u32::from_str`).
pub fn parse_u32(s: &[char]) -> (r: Result<u32, IntErrorKind>)
    ensures
        match parse_uint_spec(s@, u32::MAX as nat) {
            Ok(v) => r == Ok::<u32, IntErrorKind>(v as u32),
            Err(e) => r == Err::<u32, IntErrorKind>(e),
        },
        r matches Ok(v) ==> parse_uint_spec(s@, u32::MAX as nat) == Ok::<nat, IntErrorKind>(
            v as nat,
        ),
{
    proof {
        lemma_parse_uint_bound(s@, u32::MAX as nat);
    }
    match parse_uint(s, 0xffff_ffffu64) {
        Ok(v) => Ok(v as u32),
        Err(e) => Err(e),
    }
}

/// Parses a `usize` (`usize::from_str`).
pub fn parse_usize(s: &[char]) -> (r: Result<usize, IntErrorKind>)
    ensures
        match parse_uint_spec(s@, usize::MAX as nat) {
            Ok(v) => r == Ok::<usize, IntErrorKind>(v as usize),
            Err(e) => r == Err::<usize, IntErrorKind>(e),
        },
        r matches Ok(v) ==> parse_uint_spec(s@, usize::MAX as nat) == Ok::<nat, IntErrorKind>(
            v as nat,
        ),
{
    proof {
        lemma_parse_uint_bound(s@, usize::MAX as nat);
    }
    match parse_uint(s, usize::MAX as u64) {
        Ok(v) => Ok(v as usize),
        Err(e) => Err(e),
    }
}

} // verus!
