use bevy_make_human::loaders::skin_weights::SkinningWeights;
use bevy_make_human::name_map::NameMap;

#[test]
fn grouping_by_vertex_hands_weights_on_unchanged() {
    let mut skinning: SkinningWeights<f32> = SkinningWeights::new();
    skinning.insert("bone_a".to_string(), vec![(0, 0.5), (1, 0.3)]);
    skinning.insert("bone_b".to_string(), vec![(0, 0.25), (2, 1.0)]);

    let mut bone_indices = NameMap::new();
    bone_indices.insert("bone_a".to_string(), 0usize);
    bone_indices.insert("bone_b".to_string(), 1usize);

    let vertex_weights = skinning.group_by_vertex(&bone_indices, 3);
    // Vertex 0 has weights from both bones, not scaled to sum to 1.
    assert_eq!(vertex_weights[0], vec![(0, 0.5), (1, 0.25)]);
    assert_eq!(vertex_weights[1], vec![(0, 0.3)]);
    assert_eq!(vertex_weights[2], vec![(1, 1.0)]);
}

#[test]
fn vertex_weights_follow_bone_order_and_skip_unknowns() {
    let mut skinning: SkinningWeights<u32> = SkinningWeights::new();
    skinning.insert("hip".to_string(), vec![(1, 10), (4, 11), (1, 12)]);
    skinning.insert("ghost".to_string(), vec![(1, 20)]);
    skinning.insert("knee".to_string(), vec![(0, 30), (1, 31), (9, 32)]);

    let mut bones = NameMap::new();
    bones.insert("knee".to_string(), 7usize);
    bones.insert("hip".to_string(), 3usize);

    let v = skinning.group_by_vertex(&bones, 5);
    assert_eq!(v.len(), 5);
    assert_eq!(v[0], vec![(7, 30)]);
    assert_eq!(v[1], vec![(3, 10), (3, 12), (7, 31)]);
    assert_eq!(v[2], vec![]);
    assert_eq!(v[3], vec![]);
    assert_eq!(v[4], vec![(3, 11)]);
}

#[test]
fn max_vertex_index_and_lookup() {
    let mut skinning: SkinningWeights<u8> = SkinningWeights::new();
    assert_eq!(skinning.max_vertex_index(), 0);
    skinning.insert("a".to_string(), vec![(5, 1), (17, 2)]);
    skinning.insert("b".to_string(), vec![(3, 1)]);
    assert_eq!(skinning.max_vertex_index(), 17);
    assert_eq!(skinning.bone_weights("b"), Some(&vec![(3, 1)]));
    assert_eq!(skinning.bone_weights("c"), None);
    // Replacing a bone's list keeps its place.
    skinning.insert("a".to_string(), vec![(2, 9)]);
    assert_eq!(skinning.max_vertex_index(), 3);
    let names: Vec<&str> = skinning.as_vec().iter().map(|(n, _)| n.as_str()).collect();
    assert_eq!(names, vec!["a", "b"]);
}

#[test]
fn duplicate_keeps_bones_and_order() {
    let mut skinning: SkinningWeights<i16> = SkinningWeights::new();
    skinning.insert("z".to_string(), vec![(1, -1)]);
    skinning.insert("a".to_string(), vec![(0, 4), (2, 5)]);
    let copy = skinning.duplicate();
    assert_eq!(copy.as_vec(), skinning.as_vec());
    assert_eq!(copy.bone_weights("a"), Some(&vec![(0, 4), (2, 5)]));
}
