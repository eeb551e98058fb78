//! Asset naming: the ARKit expression targets and where their files live.
use crate::text::{chars_to_string, push_chars, str_chars};
use vstd::prelude::*;

verus! {

/// The ARKit blend shapes, in their output order.
#[derive(Debug, Clone, Copy, PartialEq, Eq, Structural, Hash)]
pub enum ARKit {
    EyeBlinkLeft,
    EyeLookDownLeft,
    EyeLookInLeft,
    EyeLookOutLeft,
    EyeLookUpLeft,
    EyeSquintLeft,
    EyeWideLeft,
    EyeBlinkRight,
    EyeLookDownRight,
    EyeLookInRight,
    EyeLookOutRight,
    EyeLookUpRight,
    EyeSquintRight,
    EyeWideRight,
    JawForward,
    JawLeft,
    JawRight,
    JawOpen,
    MouthClose,
    MouthFunnel,
    MouthPucker,
    MouthLeft,
    MouthRight,
    MouthSmileLeft,
    MouthSmileRight,
    MouthFrownLeft,
    MouthFrownRight,
    MouthDimpleLeft,
    MouthDimpleRight,
    MouthStretchLeft,
    MouthStretchRight,
    MouthRollLower,
    MouthRollUpper,
    MouthShrugLower,
    MouthShrugUpper,
    MouthPressLeft,
    MouthPressRight,
    MouthLowerDownLeft,
    MouthLowerDownRight,
    MouthUpperUpLeft,
    MouthUpperUpRight,
    BrowDownLeft,
    BrowDownRight,
    BrowInnerUp,
    BrowOuterUpLeft,
    BrowOuterUpRight,
    CheekPuff,
    CheekSquintLeft,
    CheekSquintRight,
    NoseSneerLeft,
    NoseSneerRight,
    TongueOut,
}

impl ARKit {
    /// The position of the shape in output order.
    pub open spec fn index(self) -> usize {
        match self {
            ARKit::EyeBlinkLeft => 0,
            ARKit::EyeLookDownLeft => 1,
            ARKit::EyeLookInLeft => 2,
            ARKit::EyeLookOutLeft => 3,
            ARKit::EyeLookUpLeft => 4,
            ARKit::EyeSquintLeft => 5,
            ARKit::EyeWideLeft => 6,
            ARKit::EyeBlinkRight => 7,
            ARKit::EyeLookDownRight => 8,
            ARKit::EyeLookInRight => 9,
            ARKit::EyeLookOutRight => 10,
            ARKit::EyeLookUpRight => 11,
            ARKit::EyeSquintRight => 12,
            ARKit::EyeWideRight => 13,
            ARKit::JawForward => 14,
            ARKit::JawLeft => 15,
            ARKit::JawRight => 16,
            ARKit::JawOpen => 17,
            ARKit::MouthClose => 18,
            ARKit::MouthFunnel => 19,
            ARKit::MouthPucker => 20,
            ARKit::MouthLeft => 21,
            ARKit::MouthRight => 22,
            ARKit::MouthSmileLeft => 23,
            ARKit::MouthSmileRight => 24,
            ARKit::MouthFrownLeft => 25,
            ARKit::MouthFrownRight => 26,
            ARKit::MouthDimpleLeft => 27,
            ARKit::MouthDimpleRight => 28,
            ARKit::MouthStretchLeft => 29,
            ARKit::MouthStretchRight => 30,
            ARKit::MouthRollLower => 31,
            ARKit::MouthRollUpper => 32,
            ARKit::MouthShrugLower => 33,
            ARKit::MouthShrugUpper => 34,
            ARKit::MouthPressLeft => 35,
            ARKit::MouthPressRight => 36,
            ARKit::MouthLowerDownLeft => 37,
            ARKit::MouthLowerDownRight => 38,
            ARKit::MouthUpperUpLeft => 39,
            ARKit::MouthUpperUpRight => 40,
            ARKit::BrowDownLeft => 41,
            ARKit::BrowDownRight => 42,
            ARKit::BrowInnerUp => 43,
            ARKit::BrowOuterUpLeft => 44,
            ARKit::BrowOuterUpRight => 45,
            ARKit::CheekPuff => 46,
            ARKit::CheekSquintLeft => 47,
            ARKit::CheekSquintRight => 48,
            ARKit::NoseSneerLeft => 49,
            ARKit::NoseSneerRight => 50,
            ARKit::TongueOut => 51,
        }
    }

    /// The shape at a position of output order, if the position is one.
    pub open spec fn at(index: usize) -> Option<ARKit> {
        if index == 0 {
            Some(ARKit::EyeBlinkLeft)
        } else if index == 1 {
            Some(ARKit::EyeLookDownLeft)
        } else if index == 2 {
            Some(ARKit::EyeLookInLeft)
        } else if index == 3 {
            Some(ARKit::EyeLookOutLeft)
        } else if index == 4 {
            Some(ARKit::EyeLookUpLeft)
        } else if index == 5 {
            Some(ARKit::EyeSquintLeft)
        } else if index == 6 {
            Some(ARKit::EyeWideLeft)
        } else if index == 7 {
            Some(ARKit::EyeBlinkRight)
        } else if index == 8 {
            Some(ARKit::EyeLookDownRight)
        } else if index == 9 {
            Some(ARKit::EyeLookInRight)
        } else if index == 10 {
            Some(ARKit::EyeLookOutRight)
        } else if index == 11 {
            Some(ARKit::EyeLookUpRight)
        } else if index == 12 {
            Some(ARKit::EyeSquintRight)
        } else if index == 13 {
            Some(ARKit::EyeWideRight)
        } else if index == 14 {
            Some(ARKit::JawForward)
        } else if index == 15 {
            Some(ARKit::JawLeft)
        } else if index == 16 {
            Some(ARKit::JawRight)
        } else if index == 17 {
            Some(ARKit::JawOpen)
        } else if index == 18 {
            Some(ARKit::MouthClose)
        } else if index == 19 {
            Some(ARKit::MouthFunnel)
        } else if index == 20 {
            Some(ARKit::MouthPucker)
        } else if index == 21 {
            Some(ARKit::MouthLeft)
        } else if index == 22 {
            Some(ARKit::MouthRight)
        } else if index == 23 {
            Some(ARKit::MouthSmileLeft)
        } else if index == 24 {
            Some(ARKit::MouthSmileRight)
        } else if index == 25 {
            Some(ARKit::MouthFrownLeft)
        } else if index == 26 {
            Some(ARKit::MouthFrownRight)
        } else if index == 27 {
            Some(ARKit::MouthDimpleLeft)
        } else if index == 28 {
            Some(ARKit::MouthDimpleRight)
        } else if index == 29 {
            Some(ARKit::MouthStretchLeft)
        } else if index == 30 {
            Some(ARKit::MouthStretchRight)
        } else if index == 31 {
            Some(ARKit::MouthRollLower)
        } else if index == 32 {
            Some(ARKit::MouthRollUpper)
        } else if index == 33 {
            Some(ARKit::MouthShrugLower)
        } else if index == 34 {
            Some(ARKit::MouthShrugUpper)
        } else if index == 35 {
            Some(ARKit::MouthPressLeft)
        } else if index == 36 {
            Some(ARKit::MouthPressRight)
        } else if index == 37 {
            Some(ARKit::MouthLowerDownLeft)
        } else if index == 38 {
            Some(ARKit::MouthLowerDownRight)
        } else if index == 39 {
            Some(ARKit::MouthUpperUpLeft)
        } else if index == 40 {
            Some(ARKit::MouthUpperUpRight)
        } else if index == 41 {
            Some(ARKit::BrowDownLeft)
        } else if index == 42 {
            Some(ARKit::BrowDownRight)
        } else if index == 43 {
            Some(ARKit::BrowInnerUp)
        } else if index == 44 {
            Some(ARKit::BrowOuterUpLeft)
        } else if index == 45 {
            Some(ARKit::BrowOuterUpRight)
        } else if index == 46 {
            Some(ARKit::CheekPuff)
        } else if index == 47 {
            Some(ARKit::CheekSquintLeft)
        } else if index == 48 {
            Some(ARKit::CheekSquintRight)
        } else if index == 49 {
            Some(ARKit::NoseSneerLeft)
        } else if index == 50 {
            Some(ARKit::NoseSneerRight)
        } else if index == 51 {
            Some(ARKit::TongueOut)
        } else {
            None
        }
    }

    /// The position of this shape (0 to 51).
    pub fn as_index(self) -> (r: usize)
        ensures
            r == self.index(),
            r < 52,
    {
        match self {
            ARKit::EyeBlinkLeft => 0,
            ARKit::EyeLookDownLeft => 1,
            ARKit::EyeLookInLeft => 2,
            ARKit::EyeLookOutLeft => 3,
            ARKit::EyeLookUpLeft => 4,
            ARKit::EyeSquintLeft => 5,
            ARKit::EyeWideLeft => 6,
            ARKit::EyeBlinkRight => 7,
            ARKit::EyeLookDownRight => 8,
            ARKit::EyeLookInRight => 9,
            ARKit::EyeLookOutRight => 10,
            ARKit::EyeLookUpRight => 11,
            ARKit::EyeSquintRight => 12,
            ARKit::EyeWideRight => 13,
            ARKit::JawForward => 14,
            ARKit::JawLeft => 15,
            ARKit::JawRight => 16,
            ARKit::JawOpen => 17,
            ARKit::MouthClose => 18,
            ARKit::MouthFunnel => 19,
            ARKit::MouthPucker => 20,
            ARKit::MouthLeft => 21,
            ARKit::MouthRight => 22,
            ARKit::MouthSmileLeft => 23,
            ARKit::MouthSmileRight => 24,
            ARKit::MouthFrownLeft => 25,
            ARKit::MouthFrownRight => 26,
            ARKit::MouthDimpleLeft => 27,
            ARKit::MouthDimpleRight => 28,
            ARKit::MouthStretchLeft => 29,
            ARKit::MouthStretchRight => 30,
            ARKit::MouthRollLower => 31,
            ARKit::MouthRollUpper => 32,
            ARKit::MouthShrugLower => 33,
            ARKit::MouthShrugUpper => 34,
            ARKit::MouthPressLeft => 35,
            ARKit::MouthPressRight => 36,
            ARKit::MouthLowerDownLeft => 37,
            ARKit::MouthLowerDownRight => 38,
            ARKit::MouthUpperUpLeft => 39,
            ARKit::MouthUpperUpRight => 40,
            ARKit::BrowDownLeft => 41,
            ARKit::BrowDownRight => 42,
            ARKit::BrowInnerUp => 43,
            ARKit::BrowOuterUpLeft => 44,
            ARKit::BrowOuterUpRight => 45,
            ARKit::CheekPuff => 46,
            ARKit::CheekSquintLeft => 47,
            ARKit::CheekSquintRight => 48,
            ARKit::NoseSneerLeft => 49,
            ARKit::NoseSneerRight => 50,
            ARKit::TongueOut => 51,
        }
    }

    /// The shape at position `index`, or `None` from 52 on.
    pub fn from_index(index: usize) -> (r: Option<ARKit>)
        ensures
            r == ARKit::at(index),
    {
        match index {
            0 => Some(ARKit::EyeBlinkLeft),
            1 => Some(ARKit::EyeLookDownLeft),
            2 => Some(ARKit::EyeLookInLeft),
            3 => Some(ARKit::EyeLookOutLeft),
            4 => Some(ARKit::EyeLookUpLeft),
            5 => Some(ARKit::EyeSquintLeft),
            6 => Some(ARKit::EyeWideLeft),
            7 => Some(ARKit::EyeBlinkRight),
            8 => Some(ARKit::EyeLookDownRight),
            9 => Some(ARKit::EyeLookInRight),
            10 => Some(ARKit::EyeLookOutRight),
            11 => Some(ARKit::EyeLookUpRight),
            12 => Some(ARKit::EyeSquintRight),
            13 => Some(ARKit::EyeWideRight),
            14 => Some(ARKit::JawForward),
            15 => Some(ARKit::JawLeft),
            16 => Some(ARKit::JawRight),
            17 => Some(ARKit::JawOpen),
            18 => Some(ARKit::MouthClose),
            19 => Some(ARKit::MouthFunnel),
            20 => Some(ARKit::MouthPucker),
            21 => Some(ARKit::MouthLeft),
            22 => Some(ARKit::MouthRight),
            23 => Some(ARKit::MouthSmileLeft),
            24 => Some(ARKit::MouthSmileRight),
            25 => Some(ARKit::MouthFrownLeft),
            26 => Some(ARKit::MouthFrownRight),
            27 => Some(ARKit::MouthDimpleLeft),
            28 => Some(ARKit::MouthDimpleRight),
            29 => Some(ARKit::MouthStretchLeft),
            30 => Some(ARKit::MouthStretchRight),
            31 => Some(ARKit::MouthRollLower),
            32 => Some(ARKit::MouthRollUpper),
            33 => Some(ARKit::MouthShrugLower),
            34 => Some(ARKit::MouthShrugUpper),
            35 => Some(ARKit::MouthPressLeft),
            36 => Some(ARKit::MouthPressRight),
            37 => Some(ARKit::MouthLowerDownLeft),
            38 => Some(ARKit::MouthLowerDownRight),
            39 => Some(ARKit::MouthUpperUpLeft),
            40 => Some(ARKit::MouthUpperUpRight),
            41 => Some(ARKit::BrowDownLeft),
            42 => Some(ARKit::BrowDownRight),
            43 => Some(ARKit::BrowInnerUp),
            44 => Some(ARKit::BrowOuterUpLeft),
            45 => Some(ARKit::BrowOuterUpRight),
            46 => Some(ARKit::CheekPuff),
            47 => Some(ARKit::CheekSquintLeft),
            48 => Some(ARKit::CheekSquintRight),
            49 => Some(ARKit::NoseSneerLeft),
            50 => Some(ARKit::NoseSneerRight),
            51 => Some(ARKit::TongueOut),
            _ => None,
        }
    }

    /// The kebab-case name of the shape.
    pub open spec fn name_spec(self) -> Seq<char> {
        match self {
            ARKit::EyeBlinkLeft => "eye-blink-left"@,
            ARKit::EyeLookDownLeft => "eye-look-down-left"@,
            ARKit::EyeLookInLeft => "eye-look-in-left"@,
            ARKit::EyeLookOutLeft => "eye-look-out-left"@,
            ARKit::EyeLookUpLeft => "eye-look-up-left"@,
            ARKit::EyeSquintLeft => "eye-squint-left"@,
            ARKit::EyeWideLeft => "eye-wide-left"@,
            ARKit::EyeBlinkRight => "eye-blink-right"@,
            ARKit::EyeLookDownRight => "eye-look-down-right"@,
            ARKit::EyeLookInRight => "eye-look-in-right"@,
            ARKit::EyeLookOutRight => "eye-look-out-right"@,
            ARKit::EyeLookUpRight => "eye-look-up-right"@,
            ARKit::EyeSquintRight => "eye-squint-right"@,
            ARKit::EyeWideRight => "eye-wide-right"@,
            ARKit::JawForward => "jaw-forward"@,
            ARKit::JawLeft => "jaw-left"@,
            ARKit::JawRight => "jaw-right"@,
            ARKit::JawOpen => "jaw-open"@,
            ARKit::MouthClose => "mouth-close"@,
            ARKit::MouthFunnel => "mouth-funnel"@,
            ARKit::MouthPucker => "mouth-pucker"@,
            ARKit::MouthLeft => "mouth-left"@,
            ARKit::MouthRight => "mouth-right"@,
            ARKit::MouthSmileLeft => "mouth-smile-left"@,
            ARKit::MouthSmileRight => "mouth-smile-right"@,
            ARKit::MouthFrownLeft => "mouth-frown-left"@,
            ARKit::MouthFrownRight => "mouth-frown-right"@,
            ARKit::MouthDimpleLeft => "mouth-dimple-left"@,
            ARKit::MouthDimpleRight => "mouth-dimple-right"@,
            ARKit::MouthStretchLeft => "mouth-stretch-left"@,
            ARKit::MouthStretchRight => "mouth-stretch-right"@,
            ARKit::MouthRollLower => "mouth-roll-lower"@,
            ARKit::MouthRollUpper => "mouth-roll-upper"@,
            ARKit::MouthShrugLower => "mouth-shrug-lower"@,
            ARKit::MouthShrugUpper => "mouth-shrug-upper"@,
            ARKit::MouthPressLeft => "mouth-press-left"@,
            ARKit::MouthPressRight => "mouth-press-right"@,
            ARKit::MouthLowerDownLeft => "mouth-lower-down-left"@,
            ARKit::MouthLowerDownRight => "mouth-lower-down-right"@,
            ARKit::MouthUpperUpLeft => "mouth-upper-up-left"@,
            ARKit::MouthUpperUpRight => "mouth-upper-up-right"@,
            ARKit::BrowDownLeft => "brow-down-left"@,
            ARKit::BrowDownRight => "brow-down-right"@,
            ARKit::BrowInnerUp => "brow-inner-up"@,
            ARKit::BrowOuterUpLeft => "brow-outer-up-left"@,
            ARKit::BrowOuterUpRight => "brow-outer-up-right"@,
            ARKit::CheekPuff => "cheek-puff"@,
            ARKit::CheekSquintLeft => "cheek-squint-left"@,
            ARKit::CheekSquintRight => "cheek-squint-right"@,
            ARKit::NoseSneerLeft => "nose-sneer-left"@,
            ARKit::NoseSneerRight => "nose-sneer-right"@,
            ARKit::TongueOut => "tongue-out"@,
        }
    }

    /// The kebab-case name of the shape.
    pub fn name(&self) -> (r: &'static str)
        ensures
            r@ == self.name_spec(),
    {
        match self {
            ARKit::EyeBlinkLeft => "eye-blink-left",
            ARKit::EyeLookDownLeft => "eye-look-down-left",
            ARKit::EyeLookInLeft => "eye-look-in-left",
            ARKit::EyeLookOutLeft => "eye-look-out-left",
            ARKit::EyeLookUpLeft => "eye-look-up-left",
            ARKit::EyeSquintLeft => "eye-squint-left",
            ARKit::EyeWideLeft => "eye-wide-left",
            ARKit::EyeBlinkRight => "eye-blink-right",
            ARKit::EyeLookDownRight => "eye-look-down-right",
            ARKit::EyeLookInRight => "eye-look-in-right",
            ARKit::EyeLookOutRight => "eye-look-out-right",
            ARKit::EyeLookUpRight => "eye-look-up-right",
            ARKit::EyeSquintRight => "eye-squint-right",
            ARKit::EyeWideRight => "eye-wide-right",
            ARKit::JawForward => "jaw-forward",
            ARKit::JawLeft => "jaw-left",
            ARKit::JawRight => "jaw-right",
            ARKit::JawOpen => "jaw-open",
            ARKit::MouthClose => "mouth-close",
            ARKit::MouthFunnel => "mouth-funnel",
            ARKit::MouthPucker => "mouth-pucker",
            ARKit::MouthLeft => "mouth-left",
            ARKit::MouthRight => "mouth-right",
            ARKit::MouthSmileLeft => "mouth-smile-left",
            ARKit::MouthSmileRight => "mouth-smile-right",
            ARKit::MouthFrownLeft => "mouth-frown-left",
            ARKit::MouthFrownRight => "mouth-frown-right",
            ARKit::MouthDimpleLeft => "mouth-dimple-left",
            ARKit::MouthDimpleRight => "mouth-dimple-right",
            ARKit::MouthStretchLeft => "mouth-stretch-left",
            ARKit::MouthStretchRight => "mouth-stretch-right",
            ARKit::MouthRollLower => "mouth-roll-lower",
            ARKit::MouthRollUpper => "mouth-roll-upper",
            ARKit::MouthShrugLower => "mouth-shrug-lower",
            ARKit::MouthShrugUpper => "mouth-shrug-upper",
            ARKit::MouthPressLeft => "mouth-press-left",
            ARKit::MouthPressRight => "mouth-press-right",
            ARKit::MouthLowerDownLeft => "mouth-lower-down-left",
            ARKit::MouthLowerDownRight => "mouth-lower-down-right",
            ARKit::MouthUpperUpLeft => "mouth-upper-up-left",
            ARKit::MouthUpperUpRight => "mouth-upper-up-right",
            ARKit::BrowDownLeft => "brow-down-left",
            ARKit::BrowDownRight => "brow-down-right",
            ARKit::BrowInnerUp => "brow-inner-up",
            ARKit::BrowOuterUpLeft => "brow-outer-up-left",
            ARKit::BrowOuterUpRight => "brow-outer-up-right",
            ARKit::CheekPuff => "cheek-puff",
            ARKit::CheekSquintLeft => "cheek-squint-left",
            ARKit::CheekSquintRight => "cheek-squint-right",
            ARKit::NoseSneerLeft => "nose-sneer-left",
            ARKit::NoseSneerRight => "nose-sneer-right",
            ARKit::TongueOut => "tongue-out",
        }
    }

    /// The path of the shape's `.target` file:
    /// `make_human/targets/arkit/<kebab-case name>.target`.
    pub fn target_path(&self) -> (r: String)
        ensures
            r@ == "make_human/targets/arkit/"@ + self.name_spec() + ".target"@,
    {
        let mut out = str_chars("make_human/targets/arkit/");
        push_chars(&mut out, str_chars(self.name()).as_slice());
        push_chars(&mut out, str_chars(".target").as_slice());
        chars_to_string(out.as_slice())
    }
}

/// Every shape is found again at its own position, and the positions below
/// 52 are exactly the positions of shapes.
pub proof fn lemma_arkit_index_round_trip(x: ARKit, i: usize)
    ensures
        ARKit::at(x.index()) == Some(x),
        ARKit::at(i) is Some <==> i < 52,
        ARKit::at(i) matches Some(y) ==> y.index() == i,
{
}

} // verus!
