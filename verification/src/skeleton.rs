//! The bone structure of a character: bone names and parent links.
use crate::name_map::{last_index_of, NameMap};
use vstd::prelude::*;

verus! {

/// Whether following parent links from bone `i` reaches a root bone within
/// `n` steps, every bone on the way being a bone of the skeleton.
pub open spec fn reaches_root_in(h: Seq<Option<usize>>, i: int, n: nat) -> bool
    decreases n,
{
    0 <= i < h.len() && match h[i] {
        None => true,
        Some(p) => n > 0 && reaches_root_in(h, p as int, (n - 1) as nat),
    }
}

/// Whether following parent links from bone `i` ends at a root bone.
pub open spec fn reaches_root(h: Seq<Option<usize>>, i: int) -> bool {
    exists|n: nat| reaches_root_in(h, i, n)
}

/// Each bone on `path` but the last has the next one as its parent.
pub open spec fn parent_path(h: Seq<Option<usize>>, path: Seq<usize>) -> bool {
    &&& forall|j: int| 0 <= j < path.len() ==> (#[trigger] path[j] as int) < h.len()
    &&& forall|j: int| 0 <= j < path.len() - 1 ==> #[trigger] h[path[j] as int] == Some(path[j + 1])
}

/// Walking a parent path of `k` links from a bone that reaches a root within
/// `n` steps takes at least `k` of them, and the end of the path reaches a
/// root within the rest.
proof fn lemma_follow(h: Seq<Option<usize>>, path: Seq<usize>, n: nat)
    requires
        path.len() >= 1,
        parent_path(h, path),
        reaches_root_in(h, path[0] as int, n),
    ensures
        n >= path.len() - 1,
        reaches_root_in(h, path.last() as int, (n - (path.len() - 1)) as nat),
    decreases path.len(),
{
    if path.len() > 1 {
        assert(h[path[0] as int] == Some(path[1]));
        let rest = path.drop_first();
        assert(parent_path(h, rest)) by {
            assert forall|j: int| 0 <= j < rest.len() - 1 implies #[trigger] h[rest[j] as int]
                == Some(rest[j + 1]) by {
                assert(rest[j] == path[j + 1]);
                assert(h[path[j + 1] as int] == Some(path[j + 2]));
            }
            assert forall|j: int| 0 <= j < rest.len() implies (#[trigger] rest[j] as int) < h.len() by {
                assert(rest[j] == path[j + 1]);
            }
        }
        lemma_follow(h, rest, (n - 1) as nat);
    }
}

/// A bone on a cycle of parent links never reaches a root.
proof fn lemma_cycle_no_root(h: Seq<Option<usize>>, path: Seq<usize>, n: nat)
    requires
        path.len() >= 2,
        parent_path(h, path),
        path[0] == path.last(),
    ensures
        !reaches_root_in(h, path[0] as int, n),
    decreases n,
{
    if reaches_root_in(h, path[0] as int, n) {
        lemma_follow(h, path, n);
        lemma_cycle_no_root(h, path, (n - (path.len() - 1)) as nat);
    }
}

/// More than `bound` values below `bound` hold a repeat.
proof fn lemma_repeat(s: Seq<usize>, bound: int) -> (ab: (int, int))
    requires
        0 <= bound < s.len(),
        forall|j: int| 0 <= j < s.len() ==> (#[trigger] s[j] as int) < bound,
    ensures
        0 <= ab.0 < ab.1 < s.len(),
        s[ab.0] == s[ab.1],
{
    let t = s.map_values(|x: usize| x as int);
    if exists|a: int, b: int| 0 <= a < b < s.len() && s[a] == s[b] {
        choose|a: int, b: int| 0 <= a < b < s.len() && s[a] == s[b]
    } else {
        assert(t.no_duplicates()) by {
            assert forall|a: int, b: int| 0 <= a < t.len() && 0 <= b < t.len() && a != b implies t[a]
                != t[b] by {
                if a < b {
                    assert(s[a] != s[b]);
                } else {
                    assert(s[b] != s[a]);
                }
            }
        }
        t.unique_seq_to_set();
        vstd::set_lib::lemma_int_range(0, bound);
        assert(t.to_set().subset_of(vstd::set_lib::set_int_range(0, bound))) by {
            assert forall|x: int| t.to_set().contains(x) implies vstd::set_lib::set_int_range(
                0,
                bound,
            ).contains(x) by {
                let j = choose|j: int| 0 <= j < t.len() && t[j] == x;
                assert(s[j] as int == x);
            }
        }
        vstd::set_lib::lemma_len_subset(t.to_set(), vstd::set_lib::set_int_range(0, bound));
        (0, 0)
    }
}

/// Each name mapped to its position, a later position winning.
pub open spec fn index_map(names: Seq<Seq<char>>) -> Map<Seq<char>, usize>
    decreases names.len(),
{
    if names.len() == 0 {
        Map::empty()
    } else {
        index_map(names.drop_last()).insert(names.last(), (names.len() - 1) as usize)
    }
}

/// `index_map` holds a name exactly when it occurs, at its last position.
pub proof fn lemma_index_map(names: Seq<Seq<char>>, name: Seq<char>)
    ensures
        index_map(names).contains_key(name) == last_index_of(names, name) is Some,
        last_index_of(names, name) matches Some(i) ==> 0 <= i < names.len() && index_map(names)[name]
            == i as usize,
    decreases names.len(),
{
    if names.len() > 0 {
        lemma_index_map(names.drop_last(), name);
    }
}

/// The bones of a character: names, and for each the index of its parent.
#[derive(Debug)]
pub struct Skeleton {
    bone_names: Vec<String>,
    hierarchy: Vec<Option<usize>>,
}

impl Skeleton {
    /// The bone names.
    pub closed spec fn names(&self) -> Seq<Seq<char>> {
        self.bone_names@.map_values(|s: String| s@)
    }

    /// The parent links.
    pub closed spec fn parents(&self) -> Seq<Option<usize>> {
        self.hierarchy@
    }

    #[verifier::type_invariant]
    spec fn inv(self) -> bool {
        &&& self.bone_names@.len() == self.hierarchy@.len()
        &&& forall|i: int|
            0 <= i < self.hierarchy@.len() ==> (#[trigger] self.hierarchy@[i] matches Some(p) ==> p
                < self.hierarchy@.len())
    }

    /// A skeleton of bones with these names, where bone `i`'s parent is
    /// `hierarchy[i]`. There must be as many links as names, and each parent
    /// must be one of the bones.
    pub fn new(bone_names: Vec<String>, hierarchy: Vec<Option<usize>>) -> (r: Self)
        requires
            bone_names@.len() == hierarchy@.len(),
            forall|i: int|
                0 <= i < hierarchy@.len() ==> (#[trigger] hierarchy@[i] matches Some(p) ==> p
                    < hierarchy@.len()),
        ensures
            r.names() == bone_names@.map_values(|s: String| s@),
            r.parents() == hierarchy@,
    {
        Skeleton { bone_names, hierarchy }
    }

    /// The skeleton of [`Skeleton::new`], or `None` when there are not as
    /// many links as names or a link names no bone.
    pub fn try_new(bone_names: Vec<String>, hierarchy: Vec<Option<usize>>) -> (r: Option<Self>)
        ensures
            r is Some <==> (bone_names@.len() == hierarchy@.len() && forall|i: int|
                0 <= i < hierarchy@.len() ==> (#[trigger] hierarchy@[i] matches Some(p) ==> p
                    < hierarchy@.len())),
            r matches Some(s) ==> s.names() == bone_names@.map_values(|s: String| s@) && s.parents()
                == hierarchy@,
    {
        if bone_names.len() != hierarchy.len() {
            return None;
        }
        let mut i: usize = 0;
        while i < hierarchy.len()
            invariant
                i <= hierarchy@.len(),
                forall|k: int|
                    0 <= k < i ==> (#[trigger] hierarchy@[k] matches Some(p) ==> p < hierarchy@.len()),
            decreases hierarchy@.len() - i,
        {
            if let Some(p) = hierarchy[i] {
                if p >= hierarchy.len() {
                    return None;
                }
            }
            i = i + 1;
        }
        Some(Skeleton { bone_names, hierarchy })
    }

    /// A copy of this skeleton.
    pub fn duplicate(&self) -> (r: Self)
        ensures
            r.names() == self.names(),
            r.parents() == self.parents(),
    {
        proof {
            use_type_invariant(self);
        }
        let mut names: Vec<String> = Vec::new();
        let mut i: usize = 0;
        while i < self.bone_names.len()
            invariant
                i <= self.bone_names@.len(),
                names@.len() == i,
                forall|k: int| 0 <= k < i ==> #[trigger] names@[k]@ == self.bone_names@[k]@,
            decreases self.bone_names@.len() - i,
        {
            names.push(self.bone_names[i].clone());
            i = i + 1;
        }
        let hierarchy = vstd::slice::slice_to_vec(self.hierarchy.as_slice());
        proof {
            assert(names@.map_values(|s: String| s@) =~= self.names());
        }
        Skeleton { bone_names: names, hierarchy }
    }

    /// How many bones there are.
    pub fn bone_count(&self) -> (r: usize)
        ensures
            r == self.names().len(),
            r == self.parents().len(),
    {
        proof {
            use_type_invariant(self);
        }
        self.bone_names.len()
    }

    /// Bone name to index; a name that several bones share maps to the last
    /// of them.
    pub fn bone_indices(&self) -> (r: NameMap<usize>)
        ensures
            r.view_map() == index_map(self.names()),
    {
        let ghost ns = self.names();
        let mut r: NameMap<usize> = NameMap::new();
        let mut i: usize = 0;
        while i < self.bone_names.len()
            invariant
                i <= self.bone_names@.len(),
                ns == self.names(),
                ns.len() == self.bone_names@.len(),
                r.view_map() == index_map(ns.take(i as int)),
            decreases self.bone_names@.len() - i,
        {
            let name = self.bone_names[i].clone();
            proof {
                assert(ns.take(i + 1).drop_last() =~= ns.take(i as int));
                assert(ns.take(i + 1).last() == name@);
            }
            r.insert(name, i);
            i = i + 1;
        }
        proof {
            assert(ns.take(i as int) =~= ns);
        }
        r
    }

    /// The parent link of each bone.
    pub fn hierarchy(&self) -> (r: &Vec<Option<usize>>)
        ensures
            r@ == self.parents(),
    {
        &self.hierarchy
    }

    /// The bone names.
    pub fn bone_names(&self) -> (r: &Vec<String>)
        ensures
            r@.map_values(|s: String| s@) == self.names(),
    {
        &self.bone_names
    }

    /// The index of the bone called `name`; when several bones share the
    /// name, the last one.
    pub fn bone_index(&self, name: &str) -> (r: Option<usize>)
        ensures
            match last_index_of(self.names(), name@) {
                Some(i) => r == Some(i as usize),
                None => r is None,
            },
    {
        let name = name.to_owned();
        let ghost ns = self.names();
        let mut i: usize = self.bone_names.len();
        assert(ns.take(i as int) =~= ns);
        while i > 0 && !self.bone_names[i - 1].eq(&name)
            invariant
                i <= self.bone_names@.len(),
                ns == self.names(),
                last_index_of(ns, name@) == last_index_of(ns.take(i as int), name@),
            decreases i,
        {
            proof {
                assert(ns.take(i as int).drop_last() =~= ns.take(i - 1));
                assert(ns.take(i as int).last() == self.bone_names@[i - 1]@);
            }
            i = i - 1;
        }
        proof {
            assert(ns.take(self.bone_names@.len() as int) =~= ns);
        }
        if i == 0 {
            assert(ns.take(0) =~= Seq::<Seq<char>>::empty());
            None
        } else {
            assert(ns.take(i as int).last() == self.bone_names@[i - 1]@);
            Some(i - 1)
        }
    }

    /// Whether following parent links from bone `idx` ends at a bone with no
    /// parent (false for a bone that is not in the skeleton, or one whose
    /// links run in a cycle).
    pub fn has_root_chain(&self, idx: usize) -> (r: bool)
        ensures
            r == reaches_root(self.parents(), idx as int),
    {
        proof {
            use_type_invariant(self);
        }
        let ghost h = self.parents();
        let n: usize = self.hierarchy.len();
        if idx >= n {
            assert forall|m: nat| !reaches_root_in(h, idx as int, m) by {}
            return false;
        }
        let mut cur: usize = idx;
        let mut steps: usize = 0;
        let ghost mut path: Seq<usize> = seq![idx];
        while steps < n && self.hierarchy[cur].is_some()
            invariant
                h == self.hierarchy@,
                n == h.len(),
                forall|i: int| 0 <= i < h.len() ==> (#[trigger] h[i] matches Some(q) ==> q < h.len()),
                cur < n,
                steps <= n,
                path.len() == steps + 1,
                path[0] == idx,
                path.last() == cur,
                parent_path(h, path),
                forall|m: nat|
                    #[trigger] reaches_root_in(h, cur as int, m) ==> reaches_root_in(
                        h,
                        idx as int,
                        (steps + m) as nat,
                    ),
            decreases n - steps,
        {
            let p: usize = match self.hierarchy[cur] {
                Some(q) => q,
                None => cur,
            };
            proof {
                assert forall|m: nat| #[trigger] reaches_root_in(h, p as int, m) implies reaches_root_in(
                    h,
                    idx as int,
                    (steps + 1 + m) as nat,
                ) by {
                    assert(reaches_root_in(h, cur as int, m + 1));
                }
                let old_path = path;
                path = path.push(p);
                assert(parent_path(h, path)) by {
                    assert forall|j: int| 0 <= j < path.len() - 1 implies #[trigger] h[path[j] as int]
                        == Some(path[j + 1]) by {
                        if j < old_path.len() - 1 {
                            assert(path[j] == old_path[j]);
                            assert(h[old_path[j] as int] == Some(old_path[j + 1]));
                        }
                    }
                    assert forall|j: int| 0 <= j < path.len() implies (#[trigger] path[j] as int)
                        < h.len() by {
                        if j < old_path.len() {
                            assert(path[j] == old_path[j]);
                        }
                    }
                }
            }
            cur = p;
            steps = steps + 1;
        }
        if self.hierarchy[cur].is_none() {
            proof {
                assert(reaches_root_in(h, cur as int, 0));
                assert(reaches_root_in(h, idx as int, steps as nat));
            }
            true
        } else {
            proof {
                let (a, b) = lemma_repeat(path, n as int);
                let head = path.subrange(0, a + 1);
                let cycle = path.subrange(a, b + 1);
                assert(parent_path(h, head)) by {
                    assert forall|j: int| 0 <= j < head.len() - 1 implies #[trigger] h[head[j] as int]
                        == Some(head[j + 1]) by {
                        assert(head[j] == path[j]);
                        assert(h[path[j] as int] == Some(path[j + 1]));
                    }
                }
                assert(parent_path(h, cycle)) by {
                    assert forall|j: int| 0 <= j < cycle.len() - 1 implies #[trigger] h[cycle[j] as int]
                        == Some(cycle[j + 1]) by {
                        assert(cycle[j] == path[a + j]);
                        assert(h[path[a + j] as int] == Some(path[a + j + 1]));
                    }
                }
                assert forall|m: nat| !reaches_root_in(h, idx as int, m) by {
                    if reaches_root_in(h, idx as int, m) {
                        lemma_follow(h, head, m);
                        lemma_cycle_no_root(h, cycle, (m - a) as nat);
                    }
                }
            }
            false
        }
    }

    /// The bones from `idx` up to its root: `idx`, its parent, that bone's
    /// parent, and so on, ending with a bone that has no parent.
    pub fn parent_chain(&self, idx: usize) -> (r: Vec<usize>)
        requires
            reaches_root(self.parents(), idx as int),
        ensures
            r@.len() > 0,
            r@[0] == idx,
            forall|k: int| 0 <= k < r@.len() ==> (#[trigger] r@[k] as int) < self.parents().len(),
            forall|k: int|
                0 <= k < r@.len() - 1 ==> self.parents()[#[trigger] r@[k] as int] == Some(
                    r@[k + 1],
                ),
            self.parents()[r@.last() as int] is None,
    {
        proof {
            use_type_invariant(self);
        }
        let ghost h = self.parents();
        let ghost n = choose|n: nat| reaches_root_in(h, idx as int, n);
        let mut chain: Vec<usize> = Vec::new();
        chain.push(idx);
        let mut cur: usize = idx;
        let ghost mut left: nat = n;
        loop
            invariant
                h == self.parents(),
                h == self.hierarchy@,
                forall|i: int| 0 <= i < h.len() ==> (#[trigger] h[i] matches Some(q) ==> q < h.len()),
                reaches_root_in(h, cur as int, left),
                chain@.len() > 0,
                chain@[0] == idx,
                chain@.last() == cur,
                forall|k: int| 0 <= k < chain@.len() ==> (#[trigger] chain@[k] as int) < h.len(),
                forall|k: int|
                    0 <= k < chain@.len() - 1 ==> h[#[trigger] chain@[k] as int] == Some(
                        chain@[k + 1],
                    ),
            decreases left,
        {
            match self.hierarchy[cur] {
                None => {
                    return chain;
                },
                Some(p) => {
                    let ghost before = chain@;
                    chain.push(p);
                    proof {
                        assert forall|k: int| 0 <= k < chain@.len() - 1 implies h[
                            #[trigger] chain@[k] as int] == Some(chain@[k + 1]) by {
                            if k < before.len() - 1 {
                                assert(chain@[k] == before[k]);
                                assert(chain@[k + 1] == before[k + 1]);
                            } else {
                                assert(chain@[k] == cur);
                            }
                        }
                        left = (left - 1) as nat;
                    }
                    cur = p;
                },
            }
        }
    }
}

} // verus!
