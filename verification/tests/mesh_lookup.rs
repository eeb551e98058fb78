use bevy_make_human::mesh_lookup::{
    build_mhid_lookup, fill_lookup, generate_mhid_lookup, group_matches, helper_vertex_count,
    remap_by_lookup, triangle_references,
};

#[test]
fn group_matches_groups_by_first_match_order() {
    let matches = vec![Some(4), None, Some(2), Some(4), Some(2), Some(7)];
    let groups = group_matches(&matches);
    assert_eq!(groups, vec![(4, vec![0, 3]), (2, vec![2, 4]), (7, vec![5])]);
    assert!(group_matches(&[]).is_empty());
    // Obj indices are kept as u16, as the lookup stores them.
    assert_eq!(group_matches(&[Some(65536 + 3)]), vec![(3, vec![0])]);
}

#[test]
fn generate_mhid_lookup_inverts_the_map() {
    let map = vec![(4u16, vec![0u16, 3]), (2, vec![2, 5])];
    assert_eq!(generate_mhid_lookup(&map), vec![4, 0, 2, 4, 0, 2]);
    // With nothing listed the lookup has one entry.
    assert_eq!(generate_mhid_lookup(&[]), vec![0]);
    // A vertex listed under two keys takes the later key.
    assert_eq!(generate_mhid_lookup(&[(1, vec![2]), (9, vec![2])]), vec![0, 0, 9]);
}

#[test]
fn build_mhid_lookup_maps_each_mesh_vertex() {
    let matches = vec![Some(10), None, Some(3), Some(10)];
    assert_eq!(build_mhid_lookup(&matches), vec![10, 0, 3, 10]);
    assert_eq!(build_mhid_lookup(&[]), Vec::<u16>::new());
}

#[test]
fn fill_lookup_has_requested_length() {
    assert_eq!(fill_lookup(&[(7, vec![1])], 4), vec![0, 7, 0, 0]);
}

#[test]
fn remap_copies_through_lookup() {
    let base = vec![100, 101, 102, 103];
    let lookup = vec![2u16, 9, 0];
    let source = vec![10, 11, 12];
    // Entry 1 points past the source and entry 3 has no lookup: both keep base.
    assert_eq!(remap_by_lookup(&base, &lookup, &source), vec![12, 101, 10, 103]);
}

#[test]
fn helper_vertex_count_prefers_triangles() {
    assert_eq!(helper_vertex_count(&[[1, 8, 3], [4, 2, 0]], &[50]), 9);
    assert_eq!(helper_vertex_count(&[], &[5, 12, 7]), 13);
    assert_eq!(helper_vertex_count(&[], &[]), 0);
}

#[test]
fn triangle_references_list_each_proxy_once() {
    // A proxy vertex whose triangle names a base vertex twice still refers
    // to it once, so averaging over the list is the mean of the proxies.
    let refs = triangle_references(&[[0, 0, 1], [1, 1, 1]], 2, 2);
    assert_eq!(refs, vec![vec![0], vec![0, 1], vec![]]);
}

#[test]
fn triangle_references_lists_referring_proxies() {
    let tris = vec![[0, 1, 2], [2, 2, 3], [1, 5, 0]];
    let refs = triangle_references(&tris, 2, 3);
    assert_eq!(refs, vec![vec![0], vec![0], vec![0, 1], vec![1]]);
    let refs = triangle_references(&tris, 3, 5);
    assert_eq!(refs[0], vec![0, 2]);
    assert_eq!(refs[5], vec![2]);
    assert_eq!(refs[4], Vec::<usize>::new());
}

#[test]
fn lookup_of_grouped_matches_gives_each_vertex_its_match() {
    let matches = vec![Some(4), None, Some(2), Some(4)];
    let lookup = generate_mhid_lookup(&group_matches(&matches));
    assert_eq!(lookup, vec![4, 0, 2, 4]);
    assert_eq!(lookup, build_mhid_lookup(&matches));
}
