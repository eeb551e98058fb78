//! `.target` files: sparse morph target offsets.
//!
//! Every line is `vertex_index x y z`. A line with another number of words,
//! or whose first word is not a `u32`, stops reading with an error that
//! names the line (counted from 1). The offsets are kept as their text.
use vstd::prelude::*;
use crate::text::{
    chars_to_string, decode_lines, decoded, lines, parse_u32, parse_uint_spec, split_whitespace,
    string_views, valid_count, views, words, IntErrorKind,
};

verus! {

/// One offset line.
#[derive(Clone, Debug, PartialEq, Eq)]
pub struct MorphOffsetLine {
    /// The line number, counted from 1.
    pub line: usize,
    pub index: u32,
    /// The x, y and z offsets as written.
    pub offset: [String; 3],
}

/// The plain-value form of a [`MorphOffsetLine`].
pub struct MorphOffsetView {
    pub line: usize,
    pub index: u32,
    pub offset: Seq<Seq<char>>,
}

impl View for MorphOffsetLine {
    type V = MorphOffsetView;

    open spec fn view(&self) -> MorphOffsetView {
        MorphOffsetView { line: self.line, index: self.index, offset: string_views(self.offset@) }
    }
}

/// Why reading a morph target stopped.
#[derive(Clone, Copy, Debug, PartialEq, Eq)]
pub enum MorphTargetError {
    /// The line does not have exactly four words.
    WrongCount { line: usize, count: usize },
    /// The first word of the line is not a `u32`.
    InvalidIndex { line: usize, kind: IntErrorKind },
    /// The line is not valid UTF-8.
    InvalidUtf8 { line: usize },
}

/// A read morph target: the offset lines before the first bad line, and
/// what was wrong with that line if there was one.
#[derive(Clone, Debug, PartialEq, Eq)]
pub struct MorphTargetFile {
    pub entries: Vec<MorphOffsetLine>,
    pub error: Option<MorphTargetError>,
}

/// The plain-value form of a [`MorphTargetFile`].
pub struct MorphTargetView {
    pub entries: Seq<MorphOffsetView>,
    pub error: Option<MorphTargetError>,
}

pub open spec fn offset_views(v: Seq<MorphOffsetLine>) -> Seq<MorphOffsetView> {
    v.map_values(|e: MorphOffsetLine| e@)
}

impl View for MorphTargetFile {
    type V = MorphTargetView;

    open spec fn view(&self) -> MorphTargetView {
        MorphTargetView { entries: offset_views(self.entries@), error: self.error }
    }
}

/// What line number `n` (counted from 1) with text `line` adds.
pub open spec fn morph_step(st: MorphTargetView, line: Seq<char>, n: int) -> MorphTargetView {
    let p = words(line);
    if st.error is Some {
        st
    } else if p.len() != 4 {
        MorphTargetView {
            error: Some(MorphTargetError::WrongCount { line: n as usize, count: p.len() as usize }),
            ..st
        }
    } else {
        match parse_uint_spec(p[0], u32::MAX as nat) {
            Err(e) => MorphTargetView {
                error: Some(MorphTargetError::InvalidIndex { line: n as usize, kind: e }),
                ..st
            },
            Ok(v) => MorphTargetView {
                entries: st.entries.push(
                    MorphOffsetView { line: n as usize, index: v as u32, offset: p.subrange(1, 4) },
                ),
                ..st
            },
        }
    }
}

/// The result of reading the given (decoded) lines.
pub open spec fn morph_fold(ls: Seq<Seq<char>>) -> MorphTargetView
    decreases ls.len(),
{
    if ls.len() == 0 {
        MorphTargetView { entries: seq![], error: None }
    } else {
        morph_step(morph_fold(ls.drop_last()), ls.last(), ls.len() as int)
    }
}

/// The result of reading a file: the lines are read in order up to the
/// first that is not valid UTF-8, which is an error if reading had not
/// stopped before it.
pub open spec fn morph_target_spec(b: Seq<u8>) -> MorphTargetView {
    let ls = lines(b);
    let k = valid_count(ls);
    let st = morph_fold(decoded(ls.take(k as int)));
    if st.error is None && k < ls.len() {
        MorphTargetView { error: Some(MorphTargetError::InvalidUtf8 { line: (k + 1) as usize }), ..st }
    } else {
        st
    }
}

/// Once reading has stopped, further lines change nothing.
proof fn lemma_morph_fold_stops(ls: Seq<Seq<char>>, i: int)
    requires
        0 <= i <= ls.len(),
        morph_fold(ls.take(i)).error is Some,
    ensures
        morph_fold(ls) == morph_fold(ls.take(i)),
    decreases ls.len() - i,
{
    if i < ls.len() {
        assert(ls.take(i + 1).drop_last() =~= ls.take(i));
        lemma_morph_fold_stops(ls, i + 1);
    } else {
        assert(ls.take(i) =~= ls);
    }
}

/// Reads a `.target` file.
pub fn parse_morph_target(bytes: &[u8]) -> (r: MorphTargetFile)
    ensures
        r@ == morph_target_spec(bytes@),
{
    let n_bytes: usize = bytes.len();
    let (ls, complete) = decode_lines(bytes);
    let ghost all = views(ls@);
    let mut out = MorphTargetFile { entries: Vec::new(), error: None };
    proof {
        assert(offset_views(out.entries@) =~= seq![]);
        assert(ls.len() <= n_bytes);
    }
    let mut i: usize = 0;
    while i < ls.len() && out.error.is_none()
        invariant
            i <= ls.len(),
            ls.len() <= n_bytes,
            all == views(ls@),
            out@ == morph_fold(all.take(i as int)),
        decreases ls.len() - i,
    {
        proof {
            assert(all.take(i + 1).drop_last() =~= all.take(i as int));
            assert(all[i as int] == ls@[i as int]@);
        }
        let p = split_whitespace(&ls[i]);
        let n: usize = i + 1;
        if p.len() != 4 {
            out.error = Some(MorphTargetError::WrongCount { line: n, count: p.len() });
        } else {
            match parse_u32(&p[0]) {
                Err(e) => {
                    out.error = Some(MorphTargetError::InvalidIndex { line: n, kind: e });
                },
                Ok(v) => {
                    let e = MorphOffsetLine {
                        line: n,
                        index: v,
                        offset: [
                            chars_to_string(&p[1]),
                            chars_to_string(&p[2]),
                            chars_to_string(&p[3]),
                        ],
                    };
                    proof {
                        assert(string_views(e.offset@) =~= views(p@).subrange(1, 4));
                        assert(offset_views(out.entries@.push(e)) =~= offset_views(
                            out.entries@,
                        ).push(e@));
                    }
                    out.entries.push(e);
                },
            }
        }
        i = n;
    }
    proof {
        if i < ls.len() {
            lemma_morph_fold_stops(all, i as int);
        } else {
            assert(all.take(i as int) =~= all);
        }
    }
    if out.error.is_none() && !complete {
        out.error = Some(MorphTargetError::InvalidUtf8 { line: ls.len() + 1 });
    }
    out
}

} // verus!
