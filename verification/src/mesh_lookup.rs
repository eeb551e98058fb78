//! Index bookkeeping between a rendered mesh and the MakeHuman (obj) vertex
//! numbering: which mesh vertices stand for which obj vertex, the lookup from
//! mesh vertex to obj vertex, and copying values through that lookup.
//!
//! Which obj vertex a mesh vertex stands for is decided by comparing
//! positions; that comparison is done by the caller and arrives here as one
//! `Option<usize>` per mesh vertex (the first obj vertex that matched).
use crate::name_map::last_index_of;
use vstd::prelude::*;

verus! {

/// The plain-value form of a list of groups.
pub open spec fn group_views(v: Seq<(u16, Vec<u16>)>) -> Seq<(u16, Seq<u16>)> {
    v.map_values(|e: (u16, Vec<u16>)| (e.0, e.1@))
}

/// The keys of a list of groups.
pub open spec fn group_keys(groups: Seq<(u16, Seq<u16>)>) -> Seq<u16> {
    groups.map_values(|e: (u16, Seq<u16>)| e.0)
}

/// The groups after mesh vertex `m` is found to stand for obj vertex `key`:
/// `m` joins the end of that key's group, or a new group is added at the end.
pub open spec fn add_match(groups: Seq<(u16, Seq<u16>)>, key: u16, m: u16) -> Seq<(u16, Seq<u16>)> {
    match last_index_of(group_keys(groups), key) {
        Some(i) => groups.update(i, (key, groups[i].1.push(m))),
        None => groups.push((key, seq![m])),
    }
}

/// The groups that per-vertex matches give: each matched mesh vertex `m`, in
/// order, joins the group of the obj vertex it matched, both numbers taken
/// as `u16`.
pub open spec fn vertex_map_spec(matches: Seq<Option<usize>>) -> Seq<(u16, Seq<u16>)>
    decreases matches.len(),
{
    if matches.len() == 0 {
        seq![]
    } else {
        let g = vertex_map_spec(matches.drop_last());
        match matches.last() {
            Some(o) => add_match(g, o as u16, (matches.len() - 1) as u16),
            None => g,
        }
    }
}

/// The key of the last group, in order, that lists `x`.
pub open spec fn owner(groups: Seq<(u16, Seq<u16>)>, x: u16) -> Option<u16>
    decreases groups.len(),
{
    if groups.len() == 0 {
        None
    } else if groups.last().1.contains(x) {
        Some(groups.last().0)
    } else {
        owner(groups.drop_last(), x)
    }
}

/// The lookup entry of `x`: its owner's key, or 0 when no group lists it.
pub open spec fn lookup_value(groups: Seq<(u16, Seq<u16>)>, x: u16) -> u16 {
    match owner(groups, x) {
        Some(k) => k,
        None => 0,
    }
}

/// Whether every listed vertex is below `n`.
pub open spec fn all_below(groups: Seq<(u16, Seq<u16>)>, n: int) -> bool {
    forall|g: int, j: int|
        0 <= g < groups.len() && 0 <= j < groups[g].1.len() ==> (#[trigger] groups[g].1[j] as int)
            < n
}

/// The groups built from keys and lists side by side.
spec fn zip_groups(keys: Seq<u16>, lists: Seq<Vec<u16>>) -> Seq<(u16, Seq<u16>)> {
    Seq::new(keys.len(), |i: int| (keys[i], lists[i]@))
}

/// Groups mesh vertices by the obj vertex they matched: for each obj vertex
/// (as `u16`) that some mesh vertex matched, in order of first match, the
/// mesh vertices (as `u16`) that matched it, in order.
pub fn group_matches(matches: &[Option<usize>]) -> (r: Vec<(u16, Vec<u16>)>)
    ensures
        group_views(r@) == vertex_map_spec(matches@),
{
    // pos[k] is one more than the position of key k's group, or 0.
    let mut pos: Vec<usize> = Vec::new();
    let mut k: usize = 0;
    while k < 65536
        invariant
            k <= 65536,
            pos@.len() == k,
            forall|i: int| 0 <= i < k ==> pos@[i] == 0,
        decreases 65536 - k,
    {
        pos.push(0);
        k = k + 1;
    }
    let mut keys: Vec<u16> = Vec::new();
    let mut lists: Vec<Vec<u16>> = Vec::new();
    let mut m: usize = 0;
    while m < matches.len()
        invariant
            m <= matches@.len(),
            pos@.len() == 65536,
            keys@.len() == lists@.len(),
            zip_groups(keys@, lists@) == vertex_map_spec(matches@.take(m as int)),
            forall|x: u16| #[trigger] pos@[x as int] <= keys@.len(),
            forall|x: u16| (#[trigger] pos@[x as int] == 0) == (last_index_of(keys@, x) is None),
            forall|x: u16|
                #[trigger] pos@[x as int] > 0 ==> last_index_of(keys@, x) == Some(
                    pos@[x as int] - 1,
                ),
        decreases matches@.len() - m,
    {
        let ghost g = zip_groups(keys@, lists@);
        proof {
            assert(matches@.take(m + 1).drop_last() =~= matches@.take(m as int));
            assert(matches@.take(m + 1).last() == matches@[m as int]);
            assert(group_keys(g) =~= keys@);
        }
        match matches[m] {
            Some(o) => {
                let key: u16 = o as u16;
                let mu: u16 = m as u16;
                let p: usize = pos[key as usize];
                if p == 0 {
                    let ghost old_keys = keys@;
                    let mut list: Vec<u16> = Vec::new();
                    list.push(mu);
                    keys.push(key);
                    lists.push(list);
                    pos.set(key as usize, keys.len());
                    proof {
                        assert(zip_groups(keys@, lists@) =~= g.push((key, seq![mu])));
                        assert(keys@.drop_last() =~= old_keys);
                        assert forall|x: u16| x != key implies last_index_of(keys@, x)
                            == last_index_of(old_keys, x) by {}
                        assert(last_index_of(keys@, key) == Some(old_keys.len() as int));
                    }
                } else {
                    let ghost old_lists = lists@;
                    lists[p - 1].push(mu);
                    proof {
                        let i = (p - 1) as int;
                        assert(last_index_of(group_keys(g), key) == Some(i));
                        assert(zip_groups(keys@, lists@) =~= g.update(i, (key, g[i].1.push(mu)))) by {
                            assert(keys@[i] == key) by {
                                lemma_last_index_at(keys@, key);
                            }
                        }
                    }
                }
            },
            None => {},
        }
        m = m + 1;
    }
    proof {
        assert(matches@.take(m as int) =~= matches@);
    }
    let ghost all = zip_groups(keys@, lists@);
    let mut out: Vec<(u16, Vec<u16>)> = Vec::new();
    let mut i: usize = 0;
    while i < keys.len()
        invariant
            i <= keys@.len(),
            keys@.len() == lists@.len(),
            all.len() == keys@.len(),
            forall|j: int| i <= j < keys@.len() ==> all[j] == (keys@[j], #[trigger] lists@[j]@),
            group_views(out@) == all.take(i as int),
        decreases keys@.len() - i,
    {
        proof {
            assert(all[i as int] == (keys@[i as int], lists@[i as int]@));
        }
        let ghost li = lists@[i as int]@;
        let mut list: Vec<u16> = Vec::new();
        std::mem::swap(&mut list, &mut lists[i]);
        proof {
            assert(list@ == li);
            let e = (keys@[i as int], list);
            assert(group_views(out@.push(e)) =~= group_views(out@).push((e.0, e.1@)));
            assert(all.take(i + 1) =~= all.take(i as int).push(all[i as int]));
        }
        out.push((keys[i], list));
        i = i + 1;
    }
    proof {
        assert(all.take(i as int) =~= all);
    }
    out
}

/// In a sequence, `last_index_of` finds an occurrence.
proof fn lemma_last_index_at<K>(ks: Seq<K>, k: K)
    ensures
        last_index_of(ks, k) matches Some(i) ==> 0 <= i < ks.len() && ks[i] == k,
    decreases ks.len(),
{
    if ks.len() > 0 && ks.last() != k {
        lemma_last_index_at(ks.drop_last(), k);
    }
}

/// A lookup of `count` entries: entry `x` is the key of the last group that
/// lists `x`, or 0 when none does.
pub fn fill_lookup(groups: &[(u16, Vec<u16>)], count: usize) -> (r: Vec<u16>)
    requires
        all_below(group_views(groups@), count as int),
    ensures
        r@.len() == count,
        forall|x: int|
            0 <= x < count ==> #[trigger] r@[x] == if x < 65536 {
                lookup_value(group_views(groups@), x as u16)
            } else {
                0
            },
{
    let ghost gs = group_views(groups@);
    let mut r: Vec<u16> = Vec::new();
    let mut x: usize = 0;
    while x < count
        invariant
            x <= count,
            r@.len() == x,
            forall|y: int| 0 <= y < x ==> r@[y] == 0,
        decreases count - x,
    {
        r.push(0);
        x = x + 1;
    }
    let mut g: usize = 0;
    while g < groups.len()
        invariant
            g <= groups@.len(),
            gs == group_views(groups@),
            all_below(gs, count as int),
            r@.len() == count,
            forall|y: int|
                0 <= y < count ==> #[trigger] r@[y] == if y < 65536 {
                    lookup_value(gs.take(g as int), y as u16)
                } else {
                    0
                },
        decreases groups@.len() - g,
    {
        let key: u16 = groups[g].0;
        let list = &groups[g].1;
        let ghost before = r@;
        proof {
            assert(gs[g as int] == (key, list@));
            assert(gs.take(g + 1).drop_last() =~= gs.take(g as int));
            assert(gs.take(g + 1).last() == (key, list@));
        }
        let mut j: usize = 0;
        while j < list.len()
            invariant
                j <= list@.len(),
                gs[g as int] == (key, list@),
                g < gs.len(),
                all_below(gs, count as int),
                r@.len() == count,
                before.len() == count,
                forall|y: int|
                    0 <= y < count ==> #[trigger] r@[y] == if y < 65536 && list@.take(
                        j as int,
                    ).contains(y as u16) {
                        key
                    } else {
                        before[y]
                    },
            decreases list@.len() - j,
        {
            let v: u16 = list[j];
            proof {
                assert(gs[g as int].1[j as int] == v);
                assert((v as int) < count);
                assert(list@.take(j + 1) =~= list@.take(j as int).push(v));
            }
            r.set(v as usize, key);
            proof {
                assert forall|y: int| 0 <= y < count implies #[trigger] r@[y] == if y < 65536
                    && list@.take(j + 1).contains(y as u16) {
                    key
                } else {
                    before[y]
                } by {
                    if y == v as int {
                        assert(list@.take(j + 1)[j as int] == v);
                    } else if y < 65536 {
                        assert(list@.take(j + 1).contains(y as u16) == list@.take(j as int).contains(
                            y as u16,
                        )) by {
                            if list@.take(j + 1).contains(y as u16) {
                                let t = choose|t: int|
                                    0 <= t < j + 1 && #[trigger] list@.take(j + 1)[t] == y as u16;
                                assert(t != j as int);
                                assert(list@.take(j as int)[t] == y as u16);
                            }
                            if list@.take(j as int).contains(y as u16) {
                                let t = choose|t: int|
                                    0 <= t < j && #[trigger] list@.take(j as int)[t] == y as u16;
                                assert(list@.take(j + 1)[t] == y as u16);
                            }
                        }
                    }
                }
            }
            j = j + 1;
        }
        proof {
            assert(list@.take(j as int) =~= list@);
        }
        g = g + 1;
    }
    proof {
        assert(gs.take(g as int) =~= gs);
    }
    r
}

/// Maps mesh vertices to obj vertices: the lookup is one entry longer than
/// the largest listed mesh vertex (one entry when nothing is listed), and
/// entry `x` is the key of the last group that lists `x`, 0 when none does.
pub fn generate_mhid_lookup(map: &[(u16, Vec<u16>)]) -> (r: Vec<u16>)
    ensures
        forall|g: int, j: int|
            0 <= g < map@.len() && 0 <= j < map@[g].1@.len() ==> (#[trigger] map@[g].1@[j] as int)
                < r@.len(),
        r@.len() == 1 || exists|g: int, j: int|
            0 <= g < map@.len() && 0 <= j < map@[g].1@.len() && (#[trigger] map@[g].1@[j] as int)
                == r@.len() - 1,
        forall|x: int| 0 <= x < r@.len() ==> #[trigger] r@[x] == lookup_value(group_views(map@), x as u16),
{
    let ghost gs = group_views(map@);
    let mut max: u16 = 0;
    let mut g: usize = 0;
    while g < map.len()
        invariant
            g <= map@.len(),
            forall|a: int, j: int|
                0 <= a < g && 0 <= j < map@[a].1@.len() ==> (#[trigger] map@[a].1@[j]) <= max,
            max == 0 || exists|a: int, j: int|
                0 <= a < g && 0 <= j < map@[a].1@.len() && (#[trigger] map@[a].1@[j]) == max,
        decreases map@.len() - g,
    {
        let list = &map[g].1;
        let mut j: usize = 0;
        while j < list.len()
            invariant
                g < map@.len(),
                list@ == map@[g as int].1@,
                j <= list@.len(),
                forall|a: int, t: int|
                    (0 <= a < g && 0 <= t < map@[a].1@.len()) || (a == g && 0 <= t < j) ==> (
                    #[trigger] map@[a].1@[t]) <= max,
                max == 0 || exists|a: int, t: int|
                    ((0 <= a < g && 0 <= t < map@[a].1@.len()) || (a == g && 0 <= t < j)) && (
                    #[trigger] map@[a].1@[t]) == max,
            decreases list@.len() - j,
        {
            if list[j] > max {
                max = list[j];
                assert(map@[g as int].1@[j as int] == max);
            }
            j = j + 1;
        }
        g = g + 1;
    }
    let count: usize = max as usize + 1;
    proof {
        assert forall|a: int, j: int|
            0 <= a < gs.len() && 0 <= j < gs[a].1.len() implies (#[trigger] gs[a].1[j] as int)
            < count by {
            assert(gs[a].1[j] == map@[a].1@[j]);
        }
    }
    fill_lookup(map, count)
}

/// In groups whose listed vertices are below `n`, no group lists `n`.
proof fn lemma_owner_none(groups: Seq<(u16, Seq<u16>)>, x: u16)
    requires
        owner(groups, x) is None,
    ensures
        forall|g: int| 0 <= g < groups.len() ==> !(#[trigger] groups[g]).1.contains(x),
    decreases groups.len(),
{
    if groups.len() > 0 {
        lemma_owner_none(groups.drop_last(), x);
        assert forall|g: int| 0 <= g < groups.len() implies !(#[trigger] groups[g]).1.contains(x) by {
            if g < groups.len() - 1 {
                assert(groups[g] == groups.drop_last()[g]);
            }
        }
    }
}

/// Groups with the same keys that list `x` alike have the same owner of `x`.
proof fn lemma_owner_same(a: Seq<(u16, Seq<u16>)>, b: Seq<(u16, Seq<u16>)>, x: u16)
    requires
        a.len() == b.len(),
        forall|g: int| 0 <= g < a.len() ==> (#[trigger] a[g]).0 == b[g].0,
        forall|g: int| 0 <= g < a.len() ==> (#[trigger] a[g]).1.contains(x) == b[g].1.contains(x),
    ensures
        owner(a, x) == owner(b, x),
    decreases a.len(),
{
    if a.len() > 0 {
        let a2 = a.drop_last();
        let b2 = b.drop_last();
        assert(a.last() == a[a.len() - 1]);
        assert(b.last() == b[b.len() - 1]);
        assert forall|g: int| 0 <= g < a2.len() implies (#[trigger] a2[g]).0 == b2[g].0 by {
            assert(a2[g] == a[g] && b2[g] == b[g]);
        }
        assert forall|g: int| 0 <= g < a2.len() implies (#[trigger] a2[g]).1.contains(x)
            == b2[g].1.contains(x) by {
            assert(a2[g] == a[g] && b2[g] == b[g]);
        }
        lemma_owner_same(a2, b2, x);
    }
}

/// When only group `i` lists `x`, it owns `x`.
proof fn lemma_owner_unique(groups: Seq<(u16, Seq<u16>)>, i: int, x: u16)
    requires
        0 <= i < groups.len(),
        groups[i].1.contains(x),
        forall|g: int| 0 <= g < groups.len() && g != i ==> !(#[trigger] groups[g]).1.contains(x),
    ensures
        owner(groups, x) == Some(groups[i].0),
    decreases groups.len(),
{
    if i < groups.len() - 1 {
        let init = groups.drop_last();
        assert(groups.last() == groups[groups.len() - 1]);
        assert(init[i] == groups[i]);
        assert forall|g: int| 0 <= g < init.len() && g != i implies !(#[trigger] init[g]).1.contains(
            x,
        ) by {
            assert(init[g] == groups[g]);
        }
        lemma_owner_unique(init, i, x);
    }
}

/// What adding a match does to owners, when no group listed the mesh vertex
/// before: the new vertex is owned by its key, every other keeps its owner.
proof fn lemma_add_match_owner(groups: Seq<(u16, Seq<u16>)>, key: u16, m: u16, x: u16)
    requires
        forall|g: int| 0 <= g < groups.len() ==> !(#[trigger] groups[g]).1.contains(m),
    ensures
        owner(add_match(groups, key, m), x) == if x == m {
            Some(key)
        } else {
            owner(groups, x)
        },
{
    let after = add_match(groups, key, m);
    match last_index_of(group_keys(groups), key) {
        Some(i) => {
            lemma_last_index_at(group_keys(groups), key);
            assert(group_keys(groups)[i] == groups[i].0);
            assert(groups[i].0 == key);
            if x == m {
                assert(after[i].1[after[i].1.len() - 1] == m);
                assert forall|g: int| 0 <= g < after.len() && g != i implies !(
                #[trigger] after[g]).1.contains(x) by {
                    assert(after[g] == groups[g]);
                }
                lemma_owner_unique(after, i, x);
            } else {
                assert forall|g: int| 0 <= g < after.len() implies (#[trigger] after[g]).1.contains(x)
                    == groups[g].1.contains(x) by {
                    if g == i {
                        if after[g].1.contains(x) {
                            let t = choose|t: int| 0 <= t < after[g].1.len() && #[trigger] after[g].1[t] == x;
                            assert(t < groups[g].1.len());
                            assert(groups[g].1[t] == x);
                        }
                        if groups[g].1.contains(x) {
                            let t = choose|t: int| 0 <= t < groups[g].1.len() && #[trigger] groups[g].1[t] == x;
                            assert(after[g].1[t] == x);
                        }
                    }
                }
                lemma_owner_same(after, groups, x);
            }
        },
        None => {
            assert(after.drop_last() =~= groups);
            assert(after.last() == (key, seq![m]));
            if x == m {
                assert(seq![m][0] == m);
                assert(seq![m].contains(x));
            } else {
                assert(!seq![m].contains(x));
            }
        },
    }
}

/// The grouping of matches, read back vertex by vertex, gives each matched
/// mesh vertex the obj vertex it matched, and no other vertex an owner (for
/// meshes of at most 65536 vertices, whose numbers fit a `u16`).
pub proof fn lemma_vertex_map_owner(matches: Seq<Option<usize>>, x: u16)
    requires
        matches.len() <= 65536,
    ensures
        owner(vertex_map_spec(matches), x) == if (x as int) < matches.len() {
            match matches[x as int] {
                Some(o) => Some(o as u16),
                None => None,
            }
        } else {
            None
        },
    decreases matches.len(),
{
    if matches.len() > 0 {
        let init = matches.drop_last();
        let n = matches.len() - 1;
        lemma_vertex_map_owner(init, x);
        if (x as int) < n {
            assert(init[x as int] == matches[x as int]);
        }
        match matches.last() {
            Some(o) => {
                let m = n as u16;
                assert(m as int == n);
                lemma_vertex_map_owner(init, m);
                lemma_owner_none(vertex_map_spec(init), m);
                lemma_add_match_owner(vertex_map_spec(init), o as u16, m, x);
            },
            None => {},
        }
    }
}

/// Read back through the lookup, the grouping of matches gives each mesh
/// vertex the obj vertex it matched, and 0 to a vertex that matched none
/// (for meshes of at most 65536 vertices).
pub proof fn lemma_lookup_of_matches(matches: Seq<Option<usize>>, x: u16)
    requires
        matches.len() <= 65536,
    ensures
        lookup_value(vertex_map_spec(matches), x) == if (x as int) < matches.len() {
            match matches[x as int] {
                Some(o) => o as u16,
                None => 0,
            }
        } else {
            0
        },
{
    lemma_vertex_map_owner(matches, x);
}

/// Every mesh vertex listed by the grouping of matches is below the number
/// of matches.
pub proof fn lemma_vertex_map_below(matches: Seq<Option<usize>>)
    requires
        matches.len() <= usize::MAX,
    ensures
        all_below(vertex_map_spec(matches), matches.len() as int),
    decreases matches.len(),
{
    if matches.len() > 0 {
        let init = matches.drop_last();
        let n = (matches.len() - 1) as usize;
        lemma_vertex_map_below(init);
        let g = vertex_map_spec(init);
        match matches.last() {
            Some(o) => {
                let m = n as u16;
                assert((n as u16) as usize <= n) by (bit_vector);
                let after = add_match(g, o as u16, m);
                lemma_last_index_at(group_keys(g), o as u16);
                assert forall|a: int, j: int|
                    0 <= a < after.len() && 0 <= j < after[a].1.len() implies (
                    #[trigger] after[a].1[j] as int) < matches.len() by {
                    match last_index_of(group_keys(g), o as u16) {
                        Some(i) => {
                            if a != i || j < g[a].1.len() {
                                assert(after[a].1[j] == g[a].1[j]);
                            }
                        },
                        None => {
                            if a < g.len() {
                                assert(after[a] == g[a]);
                            }
                        },
                    }
                }
            },
            None => {},
        }
    }
}

/// Maps each mesh vertex to the obj vertex it matched (0 when it matched
/// none), for a mesh with one match result per vertex.
pub fn build_mhid_lookup(matches: &[Option<usize>]) -> (r: Vec<u16>)
    ensures
        r@.len() == matches@.len(),
        forall|x: int|
            0 <= x < matches@.len() ==> #[trigger] r@[x] == if x < 65536 {
                lookup_value(vertex_map_spec(matches@), x as u16)
            } else {
                0
            },
        matches@.len() <= 65536 ==> forall|x: int|
            0 <= x < matches@.len() ==> #[trigger] r@[x] == match matches@[x] {
                Some(o) => o as u16,
                None => 0,
            },
{
    let n_matches: usize = matches.len();
    let groups = group_matches(matches);
    proof {
        lemma_vertex_map_below(matches@);
    }
    let r = fill_lookup(groups.as_slice(), n_matches);
    proof {
        if matches@.len() <= 65536 {
            assert forall|x: int| 0 <= x < matches@.len() implies #[trigger] r@[x] == match matches@[x] {
                Some(o) => o as u16,
                None => 0,
            } by {
                lemma_vertex_map_owner(matches@, x as u16);
            }
        }
    }
    r
}

/// Whether a corner of the triangle is base vertex `b`.
pub open spec fn refers_to(tri: [u32; 3], b: int) -> bool {
    tri[0] as int == b || tri[1] as int == b || tri[2] as int == b
}

/// The proxy vertices that refer to base vertex `b`, in order, each listed
/// once however many of its triangle's corners are `b`; only the first
/// `count` triangles take part.
pub open spec fn references(tris: Seq<[u32; 3]>, count: int, b: int) -> Seq<usize>
    decreases tris.len(),
{
    if tris.len() == 0 {
        seq![]
    } else {
        references(tris.drop_last(), count, b) + if tris.len() - 1 < count && refers_to(
            tris.last(),
            b,
        ) {
            seq![(tris.len() - 1) as usize]
        } else {
            seq![]
        }
    }
}

/// For each base vertex `0..=max_index`, the proxy vertices whose binding
/// triangle refers to it, in order, each listed once; bindings from
/// `proxy_count` on take no part.
pub fn triangle_references(triangles: &[[u32; 3]], proxy_count: usize, max_index: usize) -> (r: Vec<
    Vec<usize>,
>)
    requires
        max_index < usize::MAX,
    ensures
        r@.len() == max_index + 1,
        forall|b: int|
            0 <= b <= max_index ==> (#[trigger] r@[b])@ == references(
                triangles@,
                proxy_count as int,
                b,
            ),
{
    let count: usize = max_index + 1;
    let mut out: Vec<Vec<usize>> = Vec::new();
    let mut b: usize = 0;
    while b < count
        invariant
            b <= count,
            out@.len() == b,
            forall|u: int| 0 <= u < b ==> (#[trigger] out@[u])@ == Seq::<usize>::empty(),
        decreases count - b,
    {
        out.push(Vec::new());
        b = b + 1;
    }
    let mut p: usize = 0;
    while p < triangles.len()
        invariant
            p <= triangles@.len(),
            out@.len() == count,
            forall|u: int|
                0 <= u < count ==> (#[trigger] out@[u])@ == references(
                    triangles@.take(p as int),
                    proxy_count as int,
                    u,
                ),
        decreases triangles@.len() - p,
    {
        let tri: [u32; 3] = triangles[p];
        proof {
            assert(triangles@.take(p + 1).drop_last() =~= triangles@.take(p as int));
            assert(triangles@.take(p + 1).last() == tri);
        }
        if p < proxy_count {
            let ghost before = out@;
            let i0: usize = tri[0] as usize;
            let i1: usize = tri[1] as usize;
            let i2: usize = tri[2] as usize;
            if i0 < count {
                out[i0].push(p);
            }
            let ghost mid0 = out@;
            if i1 < count && i1 != i0 {
                out[i1].push(p);
            }
            let ghost mid1 = out@;
            if i2 < count && i2 != i0 && i2 != i1 {
                out[i2].push(p);
            }
            proof {
                assert forall|u: int| 0 <= u < count implies (#[trigger] out@[u])@ == before[u]@ + (
                if refers_to(tri, u) {
                    seq![p]
                } else {
                    seq![]
                }) by {
                    if u == i0 as int {
                        assert(mid0[u]@ =~= before[u]@.push(p));
                        assert(mid1[u] == mid0[u]);
                        assert(out@[u] == mid1[u]);
                    } else if u == i1 as int {
                        assert(mid0[u] == before[u]);
                        assert(mid1[u]@ =~= before[u]@.push(p));
                        assert(out@[u] == mid1[u]);
                    } else if u == i2 as int {
                        assert(mid0[u] == before[u]);
                        assert(mid1[u] == before[u]);
                        assert(out@[u]@ =~= before[u]@.push(p));
                    } else {
                        assert(mid0[u] == before[u]);
                        assert(mid1[u] == before[u]);
                        assert(out@[u] == before[u]);
                        assert(before[u]@ + seq![] =~= before[u]@);
                    }
                }
            }
        } else {
            proof {
                assert forall|u: int| 0 <= u < count implies (#[trigger] out@[u])@ == references(
                    triangles@.take(p + 1),
                    proxy_count as int,
                    u,
                ) by {
                    assert(out@[u]@ + seq![] =~= out@[u]@);
                }
            }
        }
        p = p + 1;
    }
    proof {
        assert(triangles@.take(p as int) =~= triangles@);
    }
    out
}

/// Copies values through a lookup: entry `i` of the result is
/// `source[lookup[i]]` when `i` has a lookup entry that points into
/// `source`, and `base[i]` otherwise.
pub fn remap_by_lookup<T: Copy>(base: &[T], lookup: &[u16], source: &[T]) -> (r: Vec<T>)
    requires
        lookup@.len() <= base@.len(),
    ensures
        r@.len() == base@.len(),
        forall|i: int|
            0 <= i < base@.len() ==> #[trigger] r@[i] == if i < lookup@.len() && (lookup@[i] as int)
                < source@.len() {
                source@[lookup@[i] as int]
            } else {
                base@[i]
            },
{
    let mut r: Vec<T> = Vec::new();
    let mut i: usize = 0;
    while i < base.len()
        invariant
            i <= base@.len(),
            lookup@.len() <= base@.len(),
            r@.len() == i,
            forall|k: int|
                0 <= k < i ==> #[trigger] r@[k] == if k < lookup@.len() && (lookup@[k] as int)
                    < source@.len() {
                    source@[lookup@[k] as int]
                } else {
                    base@[k]
                },
        decreases base@.len() - i,
    {
        if i < lookup.len() && (lookup[i] as usize) < source.len() {
            r.push(source[lookup[i] as usize]);
        } else {
            r.push(base[i]);
        }
        i = i + 1;
    }
    r
}

/// The number of helper vertices that bindings refer to: one more than the
/// largest triangle corner when there are triangles, else one more than the
/// largest mapped vertex, else 0.
pub fn helper_vertex_count(triangles: &[[u32; 3]], vertex_mapping: &[u32]) -> (r: usize)
    requires
        forall|t: int, c: int|
            0 <= t < triangles@.len() && 0 <= c < 3 ==> (#[trigger] triangles@[t][c] as int)
                < usize::MAX,
        forall|i: int| 0 <= i < vertex_mapping@.len() ==> (#[trigger] vertex_mapping@[i] as int)
            < usize::MAX,
    ensures
        triangles@.len() > 0 ==> {
            &&& forall|t: int, c: int|
                0 <= t < triangles@.len() && 0 <= c < 3 ==> (#[trigger] triangles@[t][c] as int) < r
            &&& exists|t: int, c: int|
                0 <= t < triangles@.len() && 0 <= c < 3 && (#[trigger] triangles@[t][c] as int) + 1
                    == r
        },
        triangles@.len() == 0 && vertex_mapping@.len() > 0 ==> {
            &&& forall|i: int| 0 <= i < vertex_mapping@.len() ==> (
            #[trigger] vertex_mapping@[i] as int) < r
            &&& exists|i: int|
                0 <= i < vertex_mapping@.len() && (#[trigger] vertex_mapping@[i] as int) + 1 == r
        },
        triangles@.len() == 0 && vertex_mapping@.len() == 0 ==> r == 0,
{
    if triangles.len() > 0 {
        let mut max: u32 = triangles[0][0];
        let mut t: usize = 0;
        while t < triangles.len()
            invariant
                0 < triangles@.len(),
                t <= triangles@.len(),
                forall|a: int, c: int|
                    0 <= a < t && 0 <= c < 3 ==> (#[trigger] triangles@[a][c]) <= max,
                exists|a: int, c: int|
                    0 <= a < triangles@.len() && 0 <= c < 3 && (#[trigger] triangles@[a][c]) == max,
            decreases triangles@.len() - t,
        {
            let mut c: usize = 0;
            while c < 3
                invariant
                    t < triangles@.len(),
                    c <= 3,
                    forall|a: int, d: int|
                        (0 <= a < t && 0 <= d < 3) || (a == t && 0 <= d < c) ==> (
                        #[trigger] triangles@[a][d]) <= max,
                    exists|a: int, d: int|
                        0 <= a < triangles@.len() && 0 <= d < 3 && (#[trigger] triangles@[a][d])
                            == max,
                decreases 3 - c,
            {
                if triangles[t][c] > max {
                    max = triangles[t][c];
                    assert(triangles@[t as int][c as int] == max);
                }
                c = c + 1;
            }
            t = t + 1;
        }
        max as usize + 1
    } else if vertex_mapping.len() > 0 {
        let mut max: u32 = vertex_mapping[0];
        let mut i: usize = 0;
        while i < vertex_mapping.len()
            invariant
                0 < vertex_mapping@.len(),
                i <= vertex_mapping@.len(),
                forall|a: int| 0 <= a < i ==> (#[trigger] vertex_mapping@[a]) <= max,
                exists|a: int| 0 <= a < vertex_mapping@.len() && (#[trigger] vertex_mapping@[a]) == max,
            decreases vertex_mapping@.len() - i,
        {
            if vertex_mapping[i] > max {
                max = vertex_mapping[i];
            }
            i = i + 1;
        }
        max as usize + 1
    } else {
        0
    }
}

} // verus!
