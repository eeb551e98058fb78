//! Rig definitions: how each bone's head and tail are placed on the mesh,
//! and the order and parent links of the bones.
use vstd::prelude::*;
use crate::loaders::vertex_groups::{expand_spec, VertexGroups};
use crate::text::{eq_str, string_chars};

verus! {

// ---------------------------------------------------------------------------
// Name order
// ---------------------------------------------------------------------------

/// `a` sorts before `b`: the order of `String`s, which compares UTF-8
/// bytes and so orders characters by their code points.
pub open spec fn lex_lt(a: Seq<char>, b: Seq<char>) -> bool
    decreases a.len(),
{
    if a.len() == 0 {
        b.len() > 0
    } else if b.len() == 0 {
        false
    } else if (a[0] as u32) < (b[0] as u32) {
        true
    } else if a[0] == b[0] {
        lex_lt(a.drop_first(), b.drop_first())
    } else {
        false
    }
}

pub proof fn lemma_lex_irreflexive(a: Seq<char>)
    ensures
        !lex_lt(a, a),
    decreases a.len(),
{
    if a.len() > 0 {
        lemma_lex_irreflexive(a.drop_first());
    }
}

pub proof fn lemma_lex_transitive(a: Seq<char>, b: Seq<char>, c: Seq<char>)
    requires
        lex_lt(a, b),
        lex_lt(b, c),
    ensures
        lex_lt(a, c),
    decreases a.len(),
{
    if a.len() > 0 && b.len() > 0 && c.len() > 0 && a[0] == b[0] && b[0] == c[0] {
        lemma_lex_transitive(a.drop_first(), b.drop_first(), c.drop_first());
    }
}

pub proof fn lemma_lex_total(a: Seq<char>, b: Seq<char>)
    ensures
        a == b || lex_lt(a, b) || lex_lt(b, a),
    decreases a.len(),
{
    if a.len() > 0 && b.len() > 0 && a[0] == b[0] {
        lemma_lex_total(a.drop_first(), b.drop_first());
        if a.drop_first() == b.drop_first() {
            assert(a =~= seq![a[0]] + a.drop_first());
            assert(b =~= seq![b[0]] + b.drop_first());
        }
    } else if a.len() > 0 && b.len() > 0 {
        assert((a[0] as u32) != (b[0] as u32)) by {
            vstd::utf8::char_u32_cast(a[0], a[0] as u32);
            vstd::utf8::char_u32_cast(b[0], b[0] as u32);
        }
    } else if a.len() == 0 && b.len() == 0 {
        assert(a =~= b);
    }
}

/// Whether `a` sorts before `b`.
pub fn lex_less(a: &[char], b: &[char]) -> (r: bool)
    ensures
        r == lex_lt(a@, b@),
{
    let mut i: usize = 0;
    assert(a@.skip(0) =~= a@);
    assert(b@.skip(0) =~= b@);
    while i < a.len() && i < b.len() && a[i] == b[i]
        invariant
            i <= a@.len(),
            i <= b@.len(),
            lex_lt(a@, b@) == lex_lt(a@.skip(i as int), b@.skip(i as int)),
        decreases a@.len() - i,
    {
        assert(a@.skip(i as int).drop_first() =~= a@.skip(i + 1));
        assert(b@.skip(i as int).drop_first() =~= b@.skip(i + 1));
        i = i + 1;
    }
    if i == a.len() {
        i < b.len()
    } else if i == b.len() {
        false
    } else {
        (a[i] as u32) < (b[i] as u32)
    }
}

/// Whether no two of the names are equal.
pub open spec fn distinct_names(names: Seq<Seq<char>>) -> bool {
    forall|i: int, j: int| 0 <= i < j < names.len() ==> #[trigger] names[i] != #[trigger] names[j]
}

/// Whether `order` lists positions of `names` in strictly ascending name order.
pub open spec fn sorted_by_name(names: Seq<Seq<char>>, order: Seq<usize>) -> bool {
    &&& forall|i: int| 0 <= i < order.len() ==> #[trigger] order[i] < names.len()
    &&& forall|i: int, j: int|
        0 <= i < j < order.len() ==> lex_lt(names[#[trigger] order[i] as int], names[#[trigger] order[j] as int])
}

/// The positions of the names, in ascending name order.
pub fn sorted_order(names: &Vec<Vec<char>>) -> (r: Vec<usize>)
    requires
        distinct_names(names@.map_values(|v: Vec<char>| v@)),
    ensures
        r@.len() == names@.len(),
        sorted_by_name(names@.map_values(|v: Vec<char>| v@), r@),
        forall|x: usize| (x as int) < names@.len() ==> #[trigger] r@.contains(x),
{
    let ghost ns = names@.map_values(|v: Vec<char>| v@);
    let n = names.len();
    let mut order: Vec<usize> = Vec::new();
    let mut k: usize = 0;
    while k < n
        invariant
            n == names@.len(),
            ns == names@.map_values(|v: Vec<char>| v@),
            distinct_names(ns),
            k <= n,
            order@.len() == k,
            forall|i: int| 0 <= i < order@.len() ==> #[trigger] order@[i] < k,
            forall|i: int, j: int|
                0 <= i < j < order@.len() ==> lex_lt(ns[#[trigger] order@[i] as int], ns[#[trigger] order@[j] as int]),
            forall|x: usize| x < k ==> #[trigger] order@.contains(x),
        decreases n - k,
    {
        let mut p: usize = 0;
        while p < order.len() && lex_less(&names[order[p]], &names[k])
            invariant
                n == names@.len(),
                ns == names@.map_values(|v: Vec<char>| v@),
                k < n,
                p <= order@.len(),
                forall|i: int| 0 <= i < order@.len() ==> #[trigger] order@[i] < k,
                forall|i: int| 0 <= i < p ==> lex_lt(ns[#[trigger] order@[i] as int], ns[k as int]),
            decreases order@.len() - p,
        {
            assert(names@[order@[p as int] as int]@ == ns[order@[p as int] as int]);
            assert(names@[k as int]@ == ns[k as int]);
            p = p + 1;
        }
        proof {
            if p < order@.len() {
                let q = order@[p as int] as int;
                assert(names@[q]@ == ns[q]);
                assert(names@[k as int]@ == ns[k as int]);
                assert(!lex_lt(ns[q], ns[k as int]));
                assert(ns[q] != ns[k as int]);
                lemma_lex_total(ns[q], ns[k as int]);
                assert forall|j: int| p <= j < order@.len() implies lex_lt(
                    ns[k as int],
                    ns[#[trigger] order@[j] as int],
                ) by {
                    if j > p {
                        lemma_lex_transitive(ns[k as int], ns[q], ns[order@[j] as int]);
                    }
                }
            }
        }
        let ghost old_order = order@;
        order.insert(p, k);
        proof {
            assert(order@ == old_order.insert(p as int, k));
            assert forall|i: int, j: int|
                0 <= i < j < order@.len() implies lex_lt(ns[#[trigger] order@[i] as int], ns[#[trigger] order@[j] as int]) by {
                if j < p {
                    assert(order@[i] == old_order[i]);
                    assert(order@[j] == old_order[j]);
                } else if j == p {
                    assert(order@[i] == old_order[i]);
                    assert(order@[j] == k);
                } else {
                    assert(order@[j] == old_order[j - 1]);
                    if i < p {
                        assert(order@[i] == old_order[i]);
                    } else if i == p {
                        assert(order@[i] == k);
                    } else {
                        assert(order@[i] == old_order[i - 1]);
                    }
                }
            }
            assert forall|x: usize| x < k + 1 implies #[trigger] order@.contains(x) by {
                if x == k {
                    assert(order@[p as int] == k);
                } else {
                    assert(old_order.contains(x));
                    let i = choose|i: int| 0 <= i < old_order.len() && old_order[i] == x;
                    if i < p {
                        assert(order@[i] == x);
                    } else {
                        assert(order@[i + 1] == x);
                    }
                }
            }
        }
        k = k + 1;
    }
    order
}

// ---------------------------------------------------------------------------
// Bone order and parents
// ---------------------------------------------------------------------------

/// A bone's name and the name of its parent, as a rig file gives them.
#[derive(Clone, Debug, PartialEq, Eq)]
pub struct RigBone {
    pub name: String,
    pub parent: Option<String>,
}

/// The bones' names.
pub open spec fn bone_names(bones: Seq<RigBone>) -> Seq<Seq<char>> {
    bones.map_values(|b: RigBone| b.name@)
}

/// The bones in ascending name order, and for each (in that order) the
/// position of its parent, when a bone of that name exists.
#[derive(Clone, Debug, PartialEq, Eq)]
pub struct BoneOrder {
    /// `order[k]` is the index (in the input) of the `k`-th bone by name.
    pub order: Vec<usize>,
    /// `hierarchy[k]` is the position in `order` of that bone's parent.
    pub hierarchy: Vec<Option<usize>>,
}

/// What the parent link of the bone at position `k` is.
pub open spec fn parent_link_ok(
    bones: Seq<RigBone>,
    order: Seq<usize>,
    k: int,
    link: Option<usize>,
) -> bool {
    match bones[order[k] as int].parent {
        None => link is None,
        Some(pn) => match link {
            Some(q) => q < order.len() && bones[order[q as int] as int].name@ == pn@,
            None => forall|q: int| 0 <= q < order.len() ==> bones[#[trigger] order[q] as int].name@ != pn@,
        },
    }
}

/// Bones in name order come after their parents when the parent's name
/// sorts before the bone's own name.
pub proof fn lemma_parent_before_child(
    bones: Seq<RigBone>,
    order: Seq<usize>,
    k: int,
    link: Option<usize>,
)
    requires
        sorted_by_name(bone_names(bones), order),
        0 <= k < order.len(),
        parent_link_ok(bones, order, k, link),
        link matches Some(q) && lex_lt(
            bone_names(bones)[order[q as int] as int],
            bone_names(bones)[order[k] as int],
        ),
    ensures
        link matches Some(q) && (q as int) < k,
{
    let names = bone_names(bones);
    let q = link->0 as int;
    let child = names[order[k] as int];
    let parent = names[order[q] as int];
    if q == k {
        lemma_lex_irreflexive(child);
    } else if q > k {
        assert(lex_lt(child, parent));
        lemma_lex_transitive(child, parent, child);
        lemma_lex_irreflexive(child);
    }
}

/// Orders the bones by name and links each to its parent: bones are
/// placed in ascending name order (so the order does not depend on how the
/// rig's map was walked), and a parent name that no bone has gives no link.
pub fn bone_order_and_hierarchy(bones: &Vec<RigBone>) -> (r: BoneOrder)
    requires
        distinct_names(bone_names(bones@)),
    ensures
        r.order@.len() == bones@.len(),
        sorted_by_name(bone_names(bones@), r.order@),
        forall|x: usize| (x as int) < bones@.len() ==> #[trigger] r.order@.contains(x),
        r.hierarchy@.len() == bones@.len(),
        forall|k: int|
            0 <= k < r.hierarchy@.len() ==> parent_link_ok(bones@, r.order@, k, #[trigger] r.hierarchy@[k]),
{
    let n = bones.len();
    let mut names: Vec<Vec<char>> = Vec::new();
    let mut i: usize = 0;
    while i < n
        invariant
            n == bones@.len(),
            i <= n,
            names@.len() == i,
            forall|k: int| 0 <= k < i ==> #[trigger] names@[k]@ == bones@[k].name@,
        decreases n - i,
    {
        names.push(string_chars(&bones[i].name));
        i = i + 1;
    }
    proof {
        assert(names@.map_values(|v: Vec<char>| v@) =~= bone_names(bones@));
    }
    let order = sorted_order(&names);
    let mut hierarchy: Vec<Option<usize>> = Vec::new();
    let mut k: usize = 0;
    while k < n
        invariant
            n == bones@.len(),
            order@.len() == n,
            forall|j: int| 0 <= j < n ==> #[trigger] order@[j] < n,
            k <= n,
            hierarchy@.len() == k,
            forall|j: int| 0 <= j < k ==> parent_link_ok(bones@, order@, j, #[trigger] hierarchy@[j]),
        decreases n - k,
    {
        let link: Option<usize> = match &bones[order[k]].parent {
            None => None,
            Some(pn) => {
                let mut q: usize = 0;
                while q < n && !bones[order[q]].name.eq(pn)
                    invariant
                        n == bones@.len(),
                        order@.len() == n,
                        forall|j: int| 0 <= j < n ==> #[trigger] order@[j] < n,
                        q <= n,
                        forall|j: int| 0 <= j < q ==> bones@[#[trigger] order@[j] as int].name@ != pn@,
                    decreases n - q,
                {
                    q = q + 1;
                }
                if q < n {
                    Some(q)
                } else {
                    None
                }
            },
        };
        hierarchy.push(link);
        k = k + 1;
    }
    BoneOrder { order, hierarchy }
}

// ---------------------------------------------------------------------------
// Head and tail positions
// ---------------------------------------------------------------------------

/// How a rig file places one end of a bone (the numeric parts, a default
/// position and an offset, are not part of this).
#[derive(Clone, Debug)]
pub struct PositionDefinition {
    /// `CUBE`, `VERTEX`, `MEAN` or `XYZ`.
    pub strategy: String,
    pub cube_name: Option<String>,
    pub vertex_index: Option<usize>,
    pub vertex_indices: Option<Vec<usize>>,
}

/// Where a bone end goes, before its offset is added.
#[derive(Clone, Debug, PartialEq, Eq)]
pub enum PositionPlan {
    /// The sum of the mesh vertices at `indices`, divided by `divisor`.
    Mean { indices: Vec<usize>, divisor: usize },
    /// The mesh vertex at this index.
    Vertex(usize),
    /// The definition's default position (zero when it has none).
    Default,
    /// The origin.
    Zero,
}

/// The plain-value form of a [`PositionPlan`].
pub enum PlanView {
    Mean { indices: Seq<usize>, divisor: usize },
    Vertex(usize),
    Default,
    Zero,
}

impl View for PositionPlan {
    type V = PlanView;

    open spec fn view(&self) -> PlanView {
        match self {
            PositionPlan::Mean { indices, divisor } => PlanView::Mean {
                indices: indices@,
                divisor: *divisor,
            },
            PositionPlan::Vertex(i) => PlanView::Vertex(*i),
            PositionPlan::Default => PlanView::Default,
            PositionPlan::Zero => PlanView::Zero,
        }
    }
}

/// The indices below `n`, in order.
pub open spec fn below(ix: Seq<usize>, n: nat) -> Seq<usize>
    decreases ix.len(),
{
    if ix.len() == 0 {
        seq![]
    } else if (ix.last() as nat) < n {
        below(ix.drop_last(), n).push(ix.last())
    } else {
        below(ix.drop_last(), n)
    }
}

/// Where a definition puts a bone end on a mesh of `n` vertices.
pub open spec fn plan_spec(
    d: PositionDefinition,
    n: nat,
    groups: Map<Seq<char>, Seq<[usize; 2]>>,
) -> PlanView {
    if d.strategy@ == "CUBE"@ {
        match d.cube_name {
            None => PlanView::Zero,
            Some(c) => if groups.contains_key(c@) && groups[c@].len() > 0 {
                let ix = expand_spec(groups[c@]);
                PlanView::Mean { indices: ix, divisor: ix.len() as usize }
            } else {
                PlanView::Default
            },
        }
    } else if d.strategy@ == "VERTEX"@ {
        match d.vertex_index {
            Some(i) => if (i as nat) < n {
                PlanView::Vertex(i)
            } else {
                PlanView::Zero
            },
            None => PlanView::Zero,
        }
    } else if d.strategy@ == "MEAN"@ {
        match d.vertex_indices {
            Some(ix) => if ix@.len() > 0 {
                PlanView::Mean { indices: below(ix@, n), divisor: ix@.len() as usize }
            } else {
                PlanView::Zero
            },
            None => PlanView::Zero,
        }
    } else if d.strategy@ == "XYZ"@ {
        PlanView::Default
    } else {
        PlanView::Zero
    }
}

/// Whether a `CUBE` definition's group only names vertices of the mesh
/// (averaging a group that names a vertex past the end panics).
pub open spec fn cube_fits(d: PositionDefinition, n: nat, groups: Map<Seq<char>, Seq<[usize; 2]>>) -> bool {
    d.strategy@ == "CUBE"@ ==> match d.cube_name {
        None => true,
        Some(c) => groups.contains_key(c@) ==> forall|k: int|
            0 <= k < expand_spec(groups[c@]).len() ==> (#[trigger] expand_spec(groups[c@])[k] as nat)
                < n,
    }
}

impl PositionDefinition {
    /// Whether [`PositionDefinition::plan`] can be asked for this definition:
    /// false exactly when it is a `CUBE` definition whose group names a
    /// vertex at or past `vertex_count` (averaging that group panics).
    pub fn fits(&self, vertex_count: usize, groups: &VertexGroups) -> (r: bool)
        ensures
            r == cube_fits(*self, vertex_count as nat, groups.view_map()),
    {
        let s = string_chars(&self.strategy);
        if !eq_str(&s, "CUBE") {
            return true;
        }
        match &self.cube_name {
            None => true,
            Some(c) => match groups.get(c) {
                None => true,
                Some(ranges) => {
                    let ix = VertexGroups::expand_ranges(ranges.as_slice());
                    let mut k: usize = 0;
                    while k < ix.len()
                        invariant
                            k <= ix@.len(),
                            forall|j: int| 0 <= j < k ==> (#[trigger] ix@[j] as nat) < vertex_count,
                            self.strategy@ == "CUBE"@,
                            self.cube_name == Some(*c),
                            groups.view_map().contains_key(c@),
                            ix@ == expand_spec(groups.view_map()[c@]),
                        decreases ix@.len() - k,
                    {
                        if ix[k] >= vertex_count {
                            return false;
                        }
                        k = k + 1;
                    }
                    true
                },
            },
        }
    }

    /// Where this definition puts a bone end on a mesh of `vertex_count`
    /// vertices with the given vertex groups.
    pub fn plan(&self, vertex_count: usize, groups: &VertexGroups) -> (r: PositionPlan)
        requires
            cube_fits(*self, vertex_count as nat, groups.view_map()),
        ensures
            r@ == plan_spec(*self, vertex_count as nat, groups.view_map()),
    {
        let s = string_chars(&self.strategy);
        if eq_str(&s, "CUBE") {
            match &self.cube_name {
                None => PositionPlan::Zero,
                Some(c) => match groups.get(c) {
                    Some(ranges) => {
                        if ranges.len() > 0 {
                            let ix = VertexGroups::expand_ranges(ranges.as_slice());
                            let d = ix.len();
                            PositionPlan::Mean { indices: ix, divisor: d }
                        } else {
                            PositionPlan::Default
                        }
                    },
                    None => PositionPlan::Default,
                },
            }
        } else if eq_str(&s, "VERTEX") {
            match self.vertex_index {
                Some(i) => if i < vertex_count {
                    PositionPlan::Vertex(i)
                } else {
                    PositionPlan::Zero
                },
                None => PositionPlan::Zero,
            }
        } else if eq_str(&s, "MEAN") {
            match &self.vertex_indices {
                Some(ix) => {
                    if ix.len() > 0 {
                        let mut kept: Vec<usize> = Vec::new();
                        let mut i: usize = 0;
                        while i < ix.len()
                            invariant
                                i <= ix@.len(),
                                kept@ == below(ix@.take(i as int), vertex_count as nat),
                            decreases ix@.len() - i,
                        {
                            assert(ix@.take(i + 1).drop_last() =~= ix@.take(i as int));
                            if ix[i] < vertex_count {
                                kept.push(ix[i]);
                            }
                            i = i + 1;
                        }
                        assert(ix@.take(i as int) =~= ix@);
                        PositionPlan::Mean { indices: kept, divisor: ix.len() }
                    } else {
                        PositionPlan::Zero
                    }
                },
                None => PositionPlan::Zero,
            }
        } else if eq_str(&s, "XYZ") {
            PositionPlan::Default
        } else {
            PositionPlan::Zero
        }
    }
}

} // verus!
