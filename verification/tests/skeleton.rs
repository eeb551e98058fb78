use bevy_make_human::name_map::NameMap;
use bevy_make_human::skeleton::Skeleton;

fn names(list: &[&str]) -> Vec<String> {
    list.iter().map(|s| s.to_string()).collect()
}

#[test]
fn test_skeleton_hierarchy() {
    let bones = names(&["root", "child"]);
    let hierarchy = vec![None, Some(0)]; // child's parent is root
    let skeleton = Skeleton::new(bones, hierarchy);

    assert_eq!(skeleton.bone_count(), 2);
    assert_eq!(skeleton.bone_index("root"), Some(0));
    assert_eq!(skeleton.bone_index("child"), Some(1));
    assert_eq!(skeleton.hierarchy()[1], Some(0));
}

#[test]
fn bone_index_missing_and_shared_names() {
    let skeleton = Skeleton::new(names(&["a", "b", "a"]), vec![None, Some(0), Some(1)]);
    assert_eq!(skeleton.bone_index("missing"), None);
    // A name that several bones share maps to the last of them.
    assert_eq!(skeleton.bone_index("a"), Some(2));
    let map = skeleton.bone_indices();
    assert_eq!(map.len(), 2);
    assert_eq!(map.get(&"a".to_string()), Some(&2));
    assert_eq!(map.get(&"b".to_string()), Some(&1));
    assert_eq!(map.get(&"c".to_string()), None);
}

#[test]
fn parent_chain_walks_to_root() {
    let skeleton = Skeleton::new(
        names(&["root", "spine", "neck", "head", "arm"]),
        vec![None, Some(0), Some(1), Some(2), Some(1)],
    );
    assert!(skeleton.has_root_chain(3));
    assert_eq!(skeleton.parent_chain(3), vec![3, 2, 1, 0]);
    assert_eq!(skeleton.parent_chain(4), vec![4, 1, 0]);
    assert_eq!(skeleton.parent_chain(0), vec![0]);
}

#[test]
fn cycles_and_unknown_bones_have_no_root_chain() {
    let skeleton = Skeleton::new(
        names(&["a", "b", "c", "d"]),
        vec![Some(1), Some(2), Some(1), None],
    );
    assert!(!skeleton.has_root_chain(0));
    assert!(!skeleton.has_root_chain(1));
    assert!(!skeleton.has_root_chain(2));
    assert!(skeleton.has_root_chain(3));
    assert!(!skeleton.has_root_chain(4));
    let self_loop = Skeleton::new(names(&["x"]), vec![Some(0)]);
    assert!(!self_loop.has_root_chain(0));
}

#[test]
fn duplicate_keeps_names_and_links() {
    let skeleton = Skeleton::new(names(&["root", "child"]), vec![None, Some(0)]);
    let copy = skeleton.duplicate();
    assert_eq!(copy.bone_names(), &names(&["root", "child"]));
    assert_eq!(copy.hierarchy(), &vec![None, Some(0)]);
}

#[test]
fn name_map_replaces_in_place() {
    let mut m: NameMap<Vec<u8>> = NameMap::new();
    m.insert("b".to_string(), vec![1]);
    m.insert("a".to_string(), vec![2]);
    m.insert("b".to_string(), vec![3]);
    assert_eq!(m.len(), 2);
    assert_eq!(m.get(&"b".to_string()), Some(&vec![3]));
    let order: Vec<&str> = m.as_vec().iter().map(|(n, _)| n.as_str()).collect();
    assert_eq!(order, vec!["b", "a"]);
}

#[test]
fn try_new_checks_links() {
    assert!(Skeleton::try_new(names(&["a", "b"]), vec![None, Some(0)]).is_some());
    assert!(Skeleton::try_new(names(&["a", "b"]), vec![None]).is_none());
    assert!(Skeleton::try_new(names(&["a", "b"]), vec![None, Some(2)]).is_none());
    let s = Skeleton::try_new(names(&["a"]), vec![None]).unwrap();
    assert_eq!(s.bone_names(), &names(&["a"]));
}
