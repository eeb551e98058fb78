//! Vertex groups: named lists of base-mesh vertex index ranges.
//!
//! Each range `[start, end]` holds both ends, so `[[0, 5], [10, 15]]` means
//! vertices 0 to 5 and 10 to 15.
use vstd::prelude::*;
use crate::name_map::{entries_map, names_distinct, pairs_view, NameMap};
use vstd::slice::slice_to_vec;

verus! {

/// The indices a list of ranges stands for: each range `[s, e]` gives
/// `s, s + 1, ..., e` (nothing when `e < s`), ranges in order.
pub open spec fn expand_spec(ranges: Seq<[usize; 2]>) -> Seq<usize>
    decreases ranges.len(),
{
    if ranges.len() == 0 {
        seq![]
    } else {
        expand_spec(ranges.drop_last()) + range_incl(ranges.last()[0] as int, ranges.last()[1] as int)
    }
}

/// `s..=e` as a sequence.
pub open spec fn range_incl(s: int, e: int) -> Seq<usize> {
    Seq::new(if e >= s { (e - s + 1) as nat } else { 0 }, |k: int| (s + k) as usize)
}

/// The number of indices that a list of ranges stands for.
pub open spec fn expand_len(ranges: Seq<[usize; 2]>) -> int
    decreases ranges.len(),
{
    if ranges.len() == 0 {
        0
    } else {
        expand_len(ranges.drop_last()) + if ranges.last()[1] >= ranges.last()[0] {
            ranges.last()[1] - ranges.last()[0] + 1
        } else {
            0
        }
    }
}

/// Whether `x` lies in one of the ranges.
pub open spec fn in_some_range(ranges: Seq<[usize; 2]>, x: usize) -> bool {
    exists|j: int| 0 <= j < ranges.len() && #[trigger] ranges[j][0] <= x <= ranges[j][1]
}

/// Every expanded index lies in one of the ranges, and the expansion is as
/// long as the ranges' sizes added up.
pub proof fn lemma_expand_ranges(ranges: Seq<[usize; 2]>)
    ensures
        expand_spec(ranges).len() == expand_len(ranges),
        forall|k: int|
            0 <= k < expand_spec(ranges).len() ==> in_some_range(
                ranges,
                #[trigger] expand_spec(ranges)[k],
            ),
    decreases ranges.len(),
{
    if ranges.len() > 0 {
        let init = ranges.drop_last();
        lemma_expand_ranges(init);
        let a = expand_spec(init);
        let b = range_incl(ranges.last()[0] as int, ranges.last()[1] as int);
        assert forall|k: int| 0 <= k < expand_spec(ranges).len() implies in_some_range(
            ranges,
            #[trigger] expand_spec(ranges)[k],
        ) by {
            if k < a.len() {
                assert(in_some_range(init, a[k]));
                let j = choose|j: int| 0 <= j < init.len() && #[trigger] init[j][0] <= a[k] <= init[j][1];
                assert(ranges[j] == init[j]);
                assert(expand_spec(ranges)[k] == a[k]);
            } else {
                let j = ranges.len() - 1;
                assert(expand_spec(ranges)[k] == b[k - a.len()]);
                assert(ranges[j][0] <= expand_spec(ranges)[k] <= ranges[j][1]);
            }
        }
    }
}

/// `serde_json::Error`, the error of a JSON parse.
#[verifier::external_type_specification]
#[verifier::external_body]
pub struct ExJsonError(serde_json::Error);

/// The groups that `serde_json::from_slice` reads from JSON text into a
/// `BTreeMap<String, Vec<[usize; 2]>>`, in key order; `None` when the text
/// is not such an object.
pub uninterp spec fn json_vertex_groups(bytes: Seq<u8>) -> Option<
    Seq<(Seq<char>, Seq<[usize; 2]>)>,
>;

/// Reads a JSON object of name to range list with `serde_json::from_slice`
/// into a `BTreeMap` and lists its entries. Claims: the result is
/// `json_vertex_groups` of the bytes, and (a map's keys being distinct) no
/// name occurs twice.
#[verifier::external_body]
fn read_json_groups(bytes: &[u8]) -> (r: Result<Vec<(String, Vec<[usize; 2]>)>, serde_json::Error>)
    ensures
        match r {
            Ok(v) => {
                &&& json_vertex_groups(bytes@) == Some(pairs_view(v@))
                &&& names_distinct(pairs_view(v@))
            },
            Err(_) => json_vertex_groups(bytes@) is None,
        },
{
    match serde_json::from_slice::<std::collections::BTreeMap<String, Vec<[usize; 2]>>>(bytes) {
        Ok(m) => Ok(m.into_iter().collect()),
        Err(e) => Err(e),
    }
}

/// Why a vertex groups file could not be read.
#[derive(Debug)]
pub enum VertexGroupsLoaderError {
    /// The text is not a JSON object of name to `[start, end]` range list.
    Json(serde_json::Error),
}

/// A set of named vertex groups; each name occurs once.
#[derive(Debug)]
pub struct VertexGroups {
    groups: NameMap<Vec<[usize; 2]>>,
}

impl VertexGroups {
    /// The groups, by name.
    pub closed spec fn view_map(&self) -> Map<Seq<char>, Seq<[usize; 2]>> {
        self.groups.view_map()
    }

    /// No groups.
    pub fn new() -> (r: Self)
        ensures
            r.view_map() == Map::<Seq<char>, Seq<[usize; 2]>>::empty(),
    {
        VertexGroups { groups: NameMap::new() }
    }

    /// Reads groups from a JSON object of name to `[start, end]` ranges.
    pub fn from_json(bytes: &[u8]) -> (r: Result<Self, VertexGroupsLoaderError>)
        ensures
            match r {
                Ok(g) => json_vertex_groups(bytes@) matches Some(es) && g.view_map()
                    == entries_map(es),
                Err(_) => json_vertex_groups(bytes@) is None,
            },
    {
        match read_json_groups(bytes) {
            Ok(groups) => Ok(VertexGroups { groups: NameMap::from_distinct(groups) }),
            Err(e) => Err(VertexGroupsLoaderError::Json(e)),
        }
    }

    /// How many groups there are.
    pub fn len(&self) -> (r: usize)
        ensures
            r == self.view_map().len(),
    {
        self.groups.len()
    }

    /// A copy of these groups.
    pub fn duplicate(&self) -> (r: Self)
        ensures
            r.view_map() == self.view_map(),
    {
        let src = self.groups.as_vec();
        let ghost es = self.groups.entries();
        let mut groups: Vec<(String, Vec<[usize; 2]>)> = Vec::new();
        let mut i: usize = 0;
        while i < src.len()
            invariant
                i <= src@.len(),
                pairs_view(src@) == es,
                pairs_view(groups@) == es.take(i as int),
            decreases src@.len() - i,
        {
            let name = src[i].0.clone();
            let ranges = slice_to_vec(src[i].1.as_slice());
            proof {
                assert(es[i as int] == (src@[i as int].0@, src@[i as int].1@));
                assert(name@ == src@[i as int].0@);
                assert(ranges@ == src@[i as int].1@);
                assert(pairs_view(groups@.push((name, ranges))) =~= pairs_view(groups@).push(
                    (name@, ranges@),
                ));
                assert(pairs_view(groups@.push((name, ranges))) =~= es.take(i + 1));
            }
            groups.push((name, ranges));
            i = i + 1;
        }
        proof {
            assert(es.take(i as int) =~= es);
        }
        VertexGroups { groups: NameMap::from_distinct(groups) }
    }

    /// The ranges of the group named `name`, if there is one.
    pub fn get(&self, name: &String) -> (r: Option<&Vec<[usize; 2]>>)
        ensures
            match r {
                Some(v) => self.view_map().contains_key(name@) && self.view_map()[name@] == v@,
                None => !self.view_map().contains_key(name@),
            },
    {
        self.groups.get(name)
    }

    /// Sets the ranges of the group `name`, replacing any it had.
    pub fn insert(&mut self, name: String, ranges: Vec<[usize; 2]>)
        ensures
            final(self).view_map() == old(self).view_map().insert(name@, ranges@),
    {
        self.groups.insert(name, ranges);
    }

    /// The indices that a list of ranges stands for.
    pub fn expand_ranges(ranges: &[[usize; 2]]) -> (r: Vec<usize>)
        ensures
            r@ == expand_spec(ranges@),
    {
        let mut out: Vec<usize> = Vec::new();
        let mut i: usize = 0;
        while i < ranges.len()
            invariant
                i <= ranges@.len(),
                out@ == expand_spec(ranges@.take(i as int)),
            decreases ranges@.len() - i,
        {
            let start = ranges[i][0];
            let end = ranges[i][1];
            let ghost before = out@;
            if start <= end {
                let mut x: usize = start;
                while x < end
                    invariant
                        start <= x <= end,
                        out@ == before + range_incl(start as int, x as int - 1),
                    decreases end - x,
                {
                    out.push(x);
                    assert(out@ =~= before + range_incl(start as int, x as int));
                    x = x + 1;
                }
                out.push(end);
                assert(out@ =~= before + range_incl(start as int, end as int));
            } else {
                assert(range_incl(start as int, end as int) =~= seq![]);
                assert(out@ =~= before + range_incl(start as int, end as int));
            }
            proof {
                assert(ranges@.take(i + 1).drop_last() =~= ranges@.take(i as int));
                assert(ranges@.take(i + 1).last() == ranges@[i as int]);
            }
            i = i + 1;
        }
        assert(ranges@.take(i as int) =~= ranges@);
        out
    }
}

} // verus!
