//! Skinning weights: for each bone, the base-mesh vertices it moves and how
//! strongly. The weights themselves are opaque here (`W`); what is checked
//! is the bookkeeping of bones and vertex indices.
use crate::name_map::{entries_map, insert_entry, lemma_insert_new_name, names_distinct, NameMap};
use vstd::slice::slice_to_vec;
use vstd::prelude::*;

verus! {

/// The entries of vertex `v` among one bone's weights, tagged with bone
/// index `b`, in order.
pub open spec fn hits<W>(es: Seq<(usize, W)>, b: usize, v: int) -> Seq<(usize, W)>
    decreases es.len(),
{
    if es.len() == 0 {
        seq![]
    } else {
        hits(es.drop_last(), b, v) + if es.last().0 == v {
            seq![(b, es.last().1)]
        } else {
            seq![]
        }
    }
}

/// The weights of vertex `v`: for each bone in order that `bones` knows, the
/// entries of `v` in that bone's weights, tagged with the bone's index.
pub open spec fn vertex_list<W>(
    groups: Seq<(Seq<char>, Seq<(usize, W)>)>,
    bones: Map<Seq<char>, usize>,
    v: int,
) -> Seq<(usize, W)>
    decreases groups.len(),
{
    if groups.len() == 0 {
        seq![]
    } else {
        vertex_list(groups.drop_last(), bones, v) + if bones.contains_key(groups.last().0) {
            hits(groups.last().1, bones[groups.last().0], v)
        } else {
            seq![]
        }
    }
}

/// Sparse skinning weights: bone name to a list of (vertex index, weight).
#[derive(Debug)]
pub struct SkinningWeights<W> {
    weights: NameMap<Vec<(usize, W)>>,
}

impl<W: Copy> SkinningWeights<W> {
    /// The bones' weight lists, in order.
    pub closed spec fn entries(&self) -> Seq<(Seq<char>, Seq<(usize, W)>)> {
        self.weights.entries()
    }

    /// The weight lists by bone name.
    pub open spec fn view_map(&self) -> Map<Seq<char>, Seq<(usize, W)>> {
        entries_map(self.entries())
    }

    /// No weights.
    pub fn new() -> (r: Self)
        ensures
            r.entries() == Seq::<(Seq<char>, Seq<(usize, W)>)>::empty(),
    {
        SkinningWeights { weights: NameMap::new() }
    }

    /// A copy of these weights.
    pub fn duplicate(&self) -> (r: Self)
        ensures
            r.entries() == self.entries(),
    {
        let src = self.weights.as_vec();
        let ghost es = self.entries();
        let mut copy: NameMap<Vec<(usize, W)>> = NameMap::new();
        let mut i: usize = 0;
        while i < src.len()
            invariant
                i <= src@.len(),
                src@.map_values(|e: (String, Vec<(usize, W)>)| (e.0@, e.1@)) == es,
                names_distinct(es),
                copy.entries() == es.take(i as int),
            decreases src@.len() - i,
        {
            let name = src[i].0.clone();
            let list = slice_to_vec(src[i].1.as_slice());
            proof {
                assert(es[i as int] == (src@[i as int].0@, src@[i as int].1@));
                lemma_insert_new_name(es, i as int);
            }
            copy.insert(name, list);
            proof {
                assert(es.take(i as int).push(es[i as int]) =~= es.take(i + 1));
            }
            i = i + 1;
        }
        proof {
            assert(es.take(i as int) =~= es);
        }
        SkinningWeights { weights: copy }
    }

    /// Sets the weight list of bone `name`, replacing any it had.
    pub fn insert(&mut self, name: String, weights: Vec<(usize, W)>)
        ensures
            final(self).entries() == insert_entry(old(self).entries(), name@, weights@),
            final(self).view_map() == old(self).view_map().insert(name@, weights@),
    {
        self.weights.insert(name, weights);
    }

    /// The bones' weight lists, in order.
    pub fn as_vec(&self) -> (r: &Vec<(String, Vec<(usize, W)>)>)
        ensures
            r@.map_values(|e: (String, Vec<(usize, W)>)| (e.0@, e.1@)) == self.entries(),
    {
        self.weights.as_vec()
    }

    /// The weight list of the bone called `bone_name`, if it has one.
    pub fn bone_weights(&self, bone_name: &str) -> (r: Option<&Vec<(usize, W)>>)
        ensures
            match r {
                Some(v) => self.view_map().contains_key(bone_name@) && self.view_map()[bone_name@]
                    == v@,
                None => !self.view_map().contains_key(bone_name@),
            },
    {
        let key = bone_name.to_owned();
        self.weights.get(&key)
    }

    /// The largest vertex index in any weight list, or 0 when there is none.
    pub fn max_vertex_index(&self) -> (r: usize)
        ensures
            forall|g: int, k: int|
                0 <= g < self.entries().len() && 0 <= k < self.entries()[g].1.len() ==> (
                #[trigger] self.entries()[g].1[k]).0 <= r,
            r == 0 || exists|g: int, k: int|
                0 <= g < self.entries().len() && 0 <= k < self.entries()[g].1.len() && (
                #[trigger] self.entries()[g].1[k]).0 == r,
    {
        let groups = self.weights.as_vec();
        let ghost es = self.entries();
        let mut r: usize = 0;
        let mut g: usize = 0;
        while g < groups.len()
            invariant
                g <= groups@.len(),
                es == groups@.map_values(|e: (String, Vec<(usize, W)>)| (e.0@, e.1@)),
                forall|a: int, k: int|
                    0 <= a < g && 0 <= k < es[a].1.len() ==> (#[trigger] es[a].1[k]).0 <= r,
                r == 0 || exists|a: int, k: int|
                    0 <= a < g && 0 <= k < es[a].1.len() && (#[trigger] es[a].1[k]).0 == r,
            decreases groups@.len() - g,
        {
            let list = &groups[g].1;
            assert(list@ == es[g as int].1);
            let mut k: usize = 0;
            while k < list.len()
                invariant
                    g < groups@.len(),
                    k <= list@.len(),
                    list@ == es[g as int].1,
                    forall|a: int, j: int|
                        (0 <= a < g && 0 <= j < es[a].1.len()) || (a == g && 0 <= j < k) ==> (
                        #[trigger] es[a].1[j]).0 <= r,
                    r == 0 || exists|a: int, j: int|
                        ((0 <= a < g && 0 <= j < es[a].1.len()) || (a == g && 0 <= j < k)) && (
                        #[trigger] es[a].1[j]).0 == r,
                decreases list@.len() - k,
            {
                if list[k].0 > r {
                    r = list[k].0;
                    assert(es[g as int].1[k as int].0 == r);
                }
                k = k + 1;
            }
            g = g + 1;
        }
        r
    }

    /// The weights grouped by vertex: entry `v` lists, for each bone in
    /// order whose name `bone_indices` maps to an index, the weights that
    /// bone gives vertex `v`, tagged with that index. Vertices from
    /// `vertex_count` on are left out. The weights are handed on as they
    /// are: dropping negligible ones and scaling each vertex's weights to
    /// sum to 1 is arithmetic on the weight values, left to the caller.
    pub fn group_by_vertex(&self, bone_indices: &NameMap<usize>, vertex_count: usize) -> (r: Vec<
        Vec<(usize, W)>,
    >)
        ensures
            r@.len() == vertex_count,
            forall|v: int|
                0 <= v < vertex_count ==> (#[trigger] r@[v])@ == vertex_list(
                    self.entries(),
                    bone_indices.view_map(),
                    v,
                ),
    {
        let ghost es = self.entries();
        let ghost bones = bone_indices.view_map();
        let mut out: Vec<Vec<(usize, W)>> = Vec::new();
        let mut v: usize = 0;
        while v < vertex_count
            invariant
                v <= vertex_count,
                out@.len() == v,
                forall|u: int| 0 <= u < v ==> (#[trigger] out@[u])@ == Seq::<(usize, W)>::empty(),
            decreases vertex_count - v,
        {
            out.push(Vec::new());
            v = v + 1;
        }
        let groups = self.weights.as_vec();
        let mut g: usize = 0;
        while g < groups.len()
            invariant
                g <= groups@.len(),
                es == groups@.map_values(|e: (String, Vec<(usize, W)>)| (e.0@, e.1@)),
                bones == bone_indices.view_map(),
                out@.len() == vertex_count,
                forall|u: int|
                    0 <= u < vertex_count ==> (#[trigger] out@[u])@ == vertex_list(
                        es.take(g as int),
                        bones,
                        u,
                    ),
            decreases groups@.len() - g,
        {
            let ghost before = out@;
            let name = &groups[g].0;
            let list = &groups[g].1;
            assert(list@ == es[g as int].1);
            assert(name@ == es[g as int].0);
            proof {
                assert(es.take(g + 1).drop_last() =~= es.take(g as int));
                assert(es.take(g + 1).last() == es[g as int]);
            }
            match bone_indices.get(name) {
                Some(b) => {
                    let b: usize = *b;
                    let mut k: usize = 0;
                    while k < list.len()
                        invariant
                            k <= list@.len(),
                            list@ == es[g as int].1,
                            out@.len() == vertex_count,
                            before.len() == vertex_count,
                            forall|u: int|
                                0 <= u < vertex_count ==> (#[trigger] out@[u])@ == before[u]@ + hits(
                                    list@.take(k as int),
                                    b,
                                    u,
                                ),
                        decreases list@.len() - k,
                    {
                        let e: (usize, W) = list[k];
                        proof {
                            assert(list@.take(k + 1).drop_last() =~= list@.take(k as int));
                            assert(list@.take(k + 1).last() == e);
                        }
                        if e.0 < vertex_count {
                            let ghost prev = out@;
                            out[e.0].push((b, e.1));
                            proof {
                                assert forall|u: int| 0 <= u < vertex_count implies (
                                #[trigger] out@[u])@ == before[u]@ + hits(
                                    list@.take(k + 1),
                                    b,
                                    u,
                                ) by {
                                    if u == e.0 as int {
                                        assert(out@[u]@ =~= prev[u]@.push((b, e.1)));
                                        assert(before[u]@ + hits(list@.take(k + 1), b, u) =~= (
                                        before[u]@ + hits(list@.take(k as int), b, u)).push(
                                            (b, e.1),
                                        ));
                                    } else {
                                        assert(out@[u] == prev[u]);
                                        assert(hits(list@.take(k + 1), b, u) =~= hits(
                                            list@.take(k as int),
                                            b,
                                            u,
                                        ));
                                    }
                                }
                            }
                        } else {
                            proof {
                                assert forall|u: int| 0 <= u < vertex_count implies (
                                #[trigger] out@[u])@ == before[u]@ + hits(
                                    list@.take(k + 1),
                                    b,
                                    u,
                                ) by {
                                    assert(hits(list@.take(k + 1), b, u) =~= hits(
                                        list@.take(k as int),
                                        b,
                                        u,
                                    ));
                                }
                            }
                        }
                        k = k + 1;
                    }
                    proof {
                        assert(list@.take(k as int) =~= list@);
                        assert forall|u: int| 0 <= u < vertex_count implies (
                        #[trigger] out@[u])@ == vertex_list(es.take(g + 1), bones, u) by {
                            assert(before[u]@ == vertex_list(es.take(g as int), bones, u));
                        }
                    }
                },
                None => {
                    proof {
                        assert forall|u: int| 0 <= u < vertex_count implies (
                        #[trigger] out@[u])@ == vertex_list(es.take(g + 1), bones, u) by {
                            assert(vertex_list(es.take(g + 1), bones, u) =~= vertex_list(
                                es.take(g as int),
                                bones,
                                u,
                            ));
                        }
                    }
                },
            }
            g = g + 1;
        }
        proof {
            assert(es.take(g as int) =~= es);
        }
        out
    }
}

} // verus!
