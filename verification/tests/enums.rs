use bevy_make_human::assets::ARKit;
use bevy_make_human::blend_shapes::{ARKit as BlendARKit, TongueShape};
use bevy_make_human::components::MHTag;

#[test]
fn arkit_index_round_trip() {
    assert_eq!(ARKit::EyeBlinkLeft.as_index(), 0);
    assert_eq!(ARKit::JawOpen.as_index(), 17);
    assert_eq!(ARKit::TongueOut.as_index(), 51);
    assert_eq!(ARKit::from_index(17), Some(ARKit::JawOpen));
    assert_eq!(ARKit::from_index(52), None);
    for i in 0..52 {
        assert_eq!(ARKit::from_index(i).unwrap().as_index(), i);
    }
}

#[test]
fn arkit_target_path_is_kebab_case() {
    assert_eq!(
        ARKit::EyeBlinkLeft.target_path(),
        "make_human/targets/arkit/eye-blink-left.target"
    );
    assert_eq!(
        ARKit::MouthLowerDownRight.target_path(),
        "make_human/targets/arkit/mouth-lower-down-right.target"
    );
}

#[test]
fn blend_shape_names_are_camel_case() {
    assert_eq!(BlendARKit::CheekPuff.name(), "cheekPuff");
    assert_eq!(BlendARKit::from_index(43), Some(BlendARKit::BrowInnerUp));
    assert_eq!(BlendARKit::BrowInnerUp.as_index(), 43);
    assert_eq!(TongueShape::TongueTipUp.name(), "tongueTipUp");
    assert_eq!(TongueShape::TongueNarrow.as_index(), 15);
    assert_eq!(TongueShape::from_index(12), Some(TongueShape::TongueIn));
    assert_eq!(TongueShape::from_index(16), None);
}

#[test]
fn tag_names() {
    assert_eq!(MHTag::Eyebrows.name(), "Eyebrows");
    assert_eq!(MHTag::Collider.name(), "Collider");
    assert!(MHTag::Clothes.uses_clothing_offset());
    assert!(!MHTag::Hair.uses_clothing_offset());
}
