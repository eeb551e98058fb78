use bevy_make_human::loaders::mhclo::{parse_mhclo, BindingLine, ScaleRef};
use bevy_make_human::loaders::mhmat::{parse_bool, parse_mhmat, AlphaChoice, TextureSlot};
use bevy_make_human::loaders::morph_target::{parse_morph_target, MorphTargetError};
use bevy_make_human::loaders::pose::{bvh_channels_fit, parse_bvh};
use bevy_make_human::loaders::proxy::parse_proxy;
use bevy_make_human::loaders::rig::{
    bone_order_and_hierarchy, PositionDefinition, PositionPlan, RigBone,
};
use bevy_make_human::loaders::vertex_groups::{VertexGroups, VertexGroupsLoaderError};
use bevy_make_human::text::{IntErrorKind, TextError};

fn strings(list: &[&str]) -> [String; 3] {
    [list[0].to_string(), list[1].to_string(), list[2].to_string()]
}

#[test]
fn mhclo_metadata_and_bindings() {
    let text = "# a shirt\n\
                name my shirt\n\
                obj_file shirt.obj\n\
                material shirt.mhmat\n\
                z_depth 50\n\
                x_scale 5399 11998 1.4\n\
                y_scale 791 881\n\
                verts 0\n\
                10 11 12 0.2 0.3 0.5 0.1 0.2 0.3\n\
                42\n\
                \x20 7 0 1 1.0 0.0 0.0 1 2 3 \r\n\
                x\n\
                name ignored here\n";
    let a = parse_mhclo(text.as_bytes()).unwrap();
    assert_eq!(a.name, "my shirt");
    assert_eq!(a.obj_file, Some("shirt.obj".to_string()));
    assert_eq!(a.material, Some("shirt.mhmat".to_string()));
    assert_eq!(a.z_depth, 50);
    assert_eq!(
        a.x_scale,
        Some(ScaleRef { min_vert: 5399, max_vert: 11998, scale: "1.4".to_string() })
    );
    assert_eq!(a.y_scale, None);
    assert_eq!(a.z_scale, None);
    assert_eq!(
        a.bindings,
        vec![
            BindingLine::Triangle {
                triangle: [10, 11, 12],
                weights: strings(&["0.2", "0.3", "0.5"]),
                offset: strings(&["0.1", "0.2", "0.3"]),
            },
            BindingLine::Vertex(42),
            BindingLine::Triangle {
                triangle: [7, 0, 1],
                weights: strings(&["1.0", "0.0", "0.0"]),
                offset: strings(&["1", "2", "3"]),
            },
        ]
    );
    assert_eq!(a.vertex_mapping, vec![42]);
    assert!(a.has_vertex_mapping());
    assert_eq!(a.apply_vertex_mapping(&[1.5f32, 2.5], 0.0), vec![0.0]);
}

#[test]
fn mhclo_numbered_bindings_and_bad_text() {
    let a = parse_mhclo(b"0 10 11 12 1 1 2 0 0 0\n1 2 3\nz_depth x\n").unwrap();
    assert_eq!(
        a.bindings,
        vec![BindingLine::Numbered {
            triangle: [10, 11, 12],
            weights: strings(&["1", "1", "2"]),
            offset: strings(&["0", "0", "0"]),
        }]
    );
    assert_eq!(a.z_depth, 0);
    assert!(!a.has_vertex_mapping());
    let bad = [b'n', b'a', b'm', b'e', b' ', b'a', b'\n', 0xff, b'\n'];
    assert_eq!(parse_mhclo(&bad).unwrap_err(), TextError::InvalidUtf8 { line: 2 });
}

#[test]
fn mhclo_vertex_mapping_reads_base_vertices() {
    let a = parse_mhclo(b"verts 0\n2\n0\n9\n").unwrap();
    assert_eq!(a.vertex_mapping, vec![2, 0, 9]);
    assert_eq!(a.apply_vertex_mapping(&[10, 11, 12], -1), vec![12, 10, -1]);
}

#[test]
fn proxy_file() {
    let text = "version v1.1.0\n\
                name Proxy741\n\
                basemesh hm08\n\
                obj_file proxy741.obj\n\
                x_scale 5399 11998 1.4\n\
                verts 0\n\
                1 2 3 0.5 0.25 0.25 0 0 0\n\
                17\n\
                z_scale 1 2 3\n\
                abc\n";
    let p = parse_proxy(text.as_bytes()).unwrap();
    assert_eq!(p.name, "Proxy741");
    assert_eq!(p.basemesh, "hm08");
    assert_eq!(p.obj_file, Some("proxy741.obj".to_string()));
    assert_eq!(
        p.x_scale,
        Some(ScaleRef { min_vert: 5399, max_vert: 11998, scale: "1.4".to_string() })
    );
    assert_eq!(
        p.z_scale,
        Some(ScaleRef { min_vert: 1, max_vert: 2, scale: "3".to_string() })
    );
    assert_eq!(p.bindings.len(), 3);
    assert_eq!(p.bindings[1], BindingLine::Vertex(17));
    assert_eq!(p.bindings[2], BindingLine::Vertex(0));
    assert_eq!(p.get_base_binding(1), Some(&BindingLine::Vertex(17)));
    assert_eq!(p.get_base_binding(3), None);
}

#[test]
fn mhmat_file() {
    let text = "# material\n\
                name skin\n\
                diffuseColor 0.8 0.7 0.6\n\
                diffuseColor 0.1\n\
                opacity 0.5\n\
                diffuseTexture textures/skin.png\n\
                normalmapTexture textures/skin_normal.png\n\
                backfaceCull False\n\
                transparent YES\n\
                shadeless 0\n\
                // a comment\n\
                roughness\n";
    let m = parse_mhmat(text.as_bytes()).unwrap();
    assert_eq!(m.diffuse_color, Some(strings(&["0.8", "0.7", "0.6"])));
    assert_eq!(m.specular_color, None);
    assert_eq!(m.opacity, Some("0.5".to_string()));
    assert_eq!(m.roughness, None);
    assert_eq!(
        m.textures,
        vec![
            (TextureSlot::Diffuse, "textures/skin.png".to_string()),
            (TextureSlot::Normalmap, "textures/skin_normal.png".to_string()),
        ]
    );
    assert_eq!(m.backface_cull, Some(false));
    assert_eq!(m.transparent, Some(true));
    assert_eq!(m.shadeless, Some(false));
    assert_eq!(m.alpha_to_coverage, None);
}

#[test]
fn material_choice_follows_flags_and_textures() {
    // No flags, no texture: opaque, back faces culled, tinted base.
    let plain = parse_mhmat(b"diffuseColor 0.2 0.3 0.4\n").unwrap();
    let c = plain.material_choice(false);
    assert_eq!(c.alpha, AlphaChoice::Opaque);
    assert!(c.cull_back_faces);
    assert!(!c.white_base);
    // An opacity below one alone turns on blending.
    assert_eq!(plain.material_choice(true).alpha, AlphaChoice::Blend);

    // Transparent with alpha-to-coverage, a diffuse texture, no culling.
    let m = parse_mhmat(
        b"transparent true\nalphaToCoverage yes\nbackfaceCull 0\nnormalmapTexture n.png\ndiffuseTexture d.png\n",
    )
    .unwrap();
    let c = m.material_choice(false);
    assert_eq!(c.alpha, AlphaChoice::AlphaToCoverage);
    assert!(!c.cull_back_faces);
    assert!(c.white_base);

    // Alpha-to-coverage alone keeps an opaque material opaque; a normal map
    // alone does not whiten the base.
    let m = parse_mhmat(b"alphaToCoverage true\nnormalmapTexture n.png\n").unwrap();
    let c = m.material_choice(false);
    assert_eq!(c.alpha, AlphaChoice::Opaque);
    assert!(!c.white_base);
}

#[test]
fn parse_bool_ignores_case() {
    let chars = |s: &str| s.chars().collect::<Vec<char>>();
    assert!(parse_bool(&chars("TRUE")));
    assert!(parse_bool(&chars("Yes")));
    assert!(parse_bool(&chars("1")));
    assert!(!parse_bool(&chars("0")));
    assert!(!parse_bool(&chars("on")));
}

#[test]
fn morph_target_lines() {
    let t = parse_morph_target(b"12 0.1 0.2 0.3\n5 1 2 3\n");
    assert_eq!(t.error, None);
    assert_eq!(t.entries.len(), 2);
    assert_eq!(t.entries[0].line, 1);
    assert_eq!(t.entries[0].index, 12);
    assert_eq!(t.entries[0].offset, strings(&["0.1", "0.2", "0.3"]));
    assert_eq!(t.entries[1].index, 5);
}

#[test]
fn morph_target_errors_name_the_line() {
    let t = parse_morph_target(b"1 0 0 0\n12 0.1 0.2\n3 0 0 0\n");
    assert_eq!(t.entries.len(), 1);
    assert_eq!(t.error, Some(MorphTargetError::WrongCount { line: 2, count: 3 }));
    let t = parse_morph_target(b"x 1 2 3\n");
    assert_eq!(t.error, Some(MorphTargetError::InvalidIndex { line: 1, kind: IntErrorKind::InvalidDigit }));
    let t = parse_morph_target(b"99999999999 1 2 3\n");
    assert_eq!(t.error, Some(MorphTargetError::InvalidIndex { line: 1, kind: IntErrorKind::PosOverflow }));
    let t = parse_morph_target(b"1 0 0 0\n\n");
    assert_eq!(t.error, Some(MorphTargetError::WrongCount { line: 2, count: 0 }));
    let t = parse_morph_target(&[b'1', b' ', b'0', b' ', b'0', b' ', b'0', b'\n', 0xc3, b'\n']);
    assert_eq!(t.entries.len(), 1);
    assert_eq!(t.error, Some(MorphTargetError::InvalidUtf8 { line: 2 }));
    let t = parse_morph_target(b"");
    assert_eq!(t.error, None);
    assert!(t.entries.is_empty());
}

const BVH: &str = "HIERARCHY\n\
ROOT Hips\n\
{\n\
  OFFSET 0 0 0\n\
  CHANNELS 6 Xposition Yposition Zposition Zrotation Xrotation Yrotation\n\
  JOINT Spine\n\
  {\n\
    OFFSET 0 1 0\n\
    CHANNELS 3 Zrotation Xrotation Yrotation\n\
  }\n\
}\n\
MOTION\n\
Frames: 1\n\
Frame Time: 0.04\n\
1 2 3 4 5 6 7 8 9\n\
10 11 12\n";

#[test]
fn bvh_pose_reads_joints_and_first_frame() {
    assert!(bvh_channels_fit(BVH.as_bytes()));
    let pose = parse_bvh(BVH.as_bytes());
    assert_eq!(pose.joints.len(), 2);
    assert_eq!(pose.joints[0].name, "Hips");
    assert_eq!(pose.joints[0].channels.len(), 6);
    assert_eq!(pose.joints[1].name, "Spine");
    assert_eq!(
        pose.joints[1].channels,
        vec!["Zrotation".to_string(), "Xrotation".to_string(), "Yrotation".to_string()]
    );
    let expected: Vec<String> = (1..=9).map(|i| i.to_string()).collect();
    assert_eq!(pose.frame, expected);
    let values: Vec<i32> = (1..=9).collect();
    assert_eq!(pose.channel_values(&values), vec![vec![1, 2, 3, 4, 5, 6], vec![7, 8, 9]]);
    assert_eq!(pose.channel_values(&values[..7]), vec![vec![1, 2, 3, 4, 5, 6], vec![7]]);
}

#[test]
fn bvh_short_channel_list_does_not_fit() {
    let text = "HIERARCHY\nROOT Hips\nCHANNELS 3 Xrotation\nMOTION\n1\n";
    assert!(!bvh_channels_fit(text.as_bytes()));
    // A CHANNELS line before any joint is skipped.
    let text = "HIERARCHY\nCHANNELS 3 Xrotation\nROOT Hips\nMOTION\n";
    assert!(bvh_channels_fit(text.as_bytes()));
    let pose = parse_bvh(text.as_bytes());
    assert_eq!(pose.joints.len(), 1);
    assert!(pose.frame.is_empty());
}

#[test]
fn rig_bones_sorted_with_parent_links() {
    let bones = vec![
        RigBone { name: "spine".to_string(), parent: Some("root".to_string()) },
        RigBone { name: "root".to_string(), parent: None },
        RigBone { name: "arm".to_string(), parent: Some("missing".to_string()) },
        RigBone { name: "hand".to_string(), parent: Some("arm".to_string()) },
    ];
    let o = bone_order_and_hierarchy(&bones);
    // arm, hand, root, spine
    assert_eq!(o.order, vec![2, 3, 1, 0]);
    assert_eq!(o.hierarchy, vec![None, Some(0), None, Some(2)]);
}

fn def(strategy: &str) -> PositionDefinition {
    PositionDefinition {
        strategy: strategy.to_string(),
        cube_name: None,
        vertex_index: None,
        vertex_indices: None,
    }
}

#[test]
fn position_plans() {
    let mut groups = VertexGroups::new();
    groups.insert("joint-head".to_string(), vec![[0, 2], [5, 5]]);
    groups.insert("empty".to_string(), vec![]);

    let mut cube = def("CUBE");
    cube.cube_name = Some("joint-head".to_string());
    assert!(cube.fits(10, &groups));
    assert_eq!(cube.plan(10, &groups), PositionPlan::Mean { indices: vec![0, 1, 2, 5], divisor: 4 });
    assert!(!cube.fits(5, &groups));
    cube.cube_name = Some("empty".to_string());
    assert_eq!(cube.plan(10, &groups), PositionPlan::Default);
    cube.cube_name = Some("nowhere".to_string());
    assert_eq!(cube.plan(10, &groups), PositionPlan::Default);
    assert_eq!(def("CUBE").plan(10, &groups), PositionPlan::Zero);

    let mut vertex = def("VERTEX");
    vertex.vertex_index = Some(3);
    assert_eq!(vertex.plan(10, &groups), PositionPlan::Vertex(3));
    vertex.vertex_index = Some(20);
    assert_eq!(vertex.plan(10, &groups), PositionPlan::Zero);

    let mut mean = def("MEAN");
    mean.vertex_indices = Some(vec![1, 50, 2]);
    assert_eq!(mean.plan(10, &groups), PositionPlan::Mean { indices: vec![1, 2], divisor: 3 });
    mean.vertex_indices = Some(vec![]);
    assert_eq!(mean.plan(10, &groups), PositionPlan::Zero);

    assert_eq!(def("XYZ").plan(10, &groups), PositionPlan::Default);
    assert_eq!(def("OTHER").plan(10, &groups), PositionPlan::Zero);
}

#[test]
fn vertex_groups_expand_inclusive_ranges() {
    assert_eq!(
        VertexGroups::expand_ranges(&[[0, 5], [10, 15]]),
        vec![0, 1, 2, 3, 4, 5, 10, 11, 12, 13, 14, 15]
    );
    assert_eq!(VertexGroups::expand_ranges(&[[3, 3], [7, 4]]), vec![3]);
}

#[test]
fn vertex_groups_from_json() {
    let g = VertexGroups::from_json(br#"{"a": [[0, 5], [10, 15]], "b": []}"#).unwrap();
    assert_eq!(g.len(), 2);
    assert_eq!(g.get(&"a".to_string()), Some(&vec![[0, 5], [10, 15]]));
    assert_eq!(g.get(&"b".to_string()), Some(&vec![]));
    assert_eq!(g.get(&"c".to_string()), None);
    let copy = g.duplicate();
    assert_eq!(copy.get(&"a".to_string()), Some(&vec![[0, 5], [10, 15]]));
    assert!(matches!(
        VertexGroups::from_json(b"[1, 2]"),
        Err(VertexGroupsLoaderError::Json(_))
    ));
    assert!(VertexGroups::from_json(b"{\"a\": [[1]]}").is_err());
}

#[test]
fn proxy_lines_outside_the_verts_section_are_metadata() {
    let p = parse_proxy(b"0 1 2 3 4 5 6 7 8 9\n5\nname a b\n").unwrap();
    assert!(p.bindings.is_empty());
    assert_eq!(p.name, "a b");
    let p = parse_proxy(b"verts 0\n0 1 2 3 4 5 6 7 8 9\n").unwrap();
    assert!(p.bindings.is_empty());
}

#[test]
fn mhmat_later_lines_replace_earlier_ones() {
    let m = parse_mhmat(b"specularColor 0.1 0.2 0.3 0.4\nspecularColor 1 1 1\nior 1.3\nior 1.4\n").unwrap();
    assert_eq!(m.specular_color, Some(strings(&["1", "1", "1"])));
    assert_eq!(m.ior, Some("1.4".to_string()));
    assert_eq!(parse_mhmat(&[0xfe]).unwrap_err(), TextError::InvalidUtf8 { line: 1 });
}
