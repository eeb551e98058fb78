//! Blend-shape sets for facial animation: the ARKit shapes and the tongue
//! shapes, with their positions and names.
use vstd::prelude::*;

verus! {

/// The ARKit blend shapes, in their output order.
#[derive(Debug, Clone, Copy, PartialEq, Eq, Structural, Hash)]
pub enum ARKit {
    EyeBlinkLeft,
    EyeLookDownLeft,
    EyeLookInLeft,
    EyeLookOutLeft,
    EyeLookUpLeft,
    EyeSquintLeft,
    EyeWideLeft,
    EyeBlinkRight,
    EyeLookDownRight,
    EyeLookInRight,
    EyeLookOutRight,
    EyeLookUpRight,
    EyeSquintRight,
    EyeWideRight,
    JawForward,
    JawLeft,
    JawRight,
    JawOpen,
    MouthClose,
    MouthFunnel,
    MouthPucker,
    MouthLeft,
    MouthRight,
    MouthSmileLeft,
    MouthSmileRight,
    MouthFrownLeft,
    MouthFrownRight,
    MouthDimpleLeft,
    MouthDimpleRight,
    MouthStretchLeft,
    MouthStretchRight,
    MouthRollLower,
    MouthRollUpper,
    MouthShrugLower,
    MouthShrugUpper,
    MouthPressLeft,
    MouthPressRight,
    MouthLowerDownLeft,
    MouthLowerDownRight,
    MouthUpperUpLeft,
    MouthUpperUpRight,
    BrowDownLeft,
    BrowDownRight,
    BrowInnerUp,
    BrowOuterUpLeft,
    BrowOuterUpRight,
    CheekPuff,
    CheekSquintLeft,
    CheekSquintRight,
    NoseSneerLeft,
    NoseSneerRight,
    TongueOut,
}

impl ARKit {
    /// The position of the shape in output order.
    pub open spec fn index(self) -> usize {
        match self {
            ARKit::EyeBlinkLeft => 0,
            ARKit::EyeLookDownLeft => 1,
            ARKit::EyeLookInLeft => 2,
            ARKit::EyeLookOutLeft => 3,
            ARKit::EyeLookUpLeft => 4,
            ARKit::EyeSquintLeft => 5,
            ARKit::EyeWideLeft => 6,
            ARKit::EyeBlinkRight => 7,
            ARKit::EyeLookDownRight => 8,
            ARKit::EyeLookInRight => 9,
            ARKit::EyeLookOutRight => 10,
            ARKit::EyeLookUpRight => 11,
            ARKit::EyeSquintRight => 12,
            ARKit::EyeWideRight => 13,
            ARKit::JawForward => 14,
            ARKit::JawLeft => 15,
            ARKit::JawRight => 16,
            ARKit::JawOpen => 17,
            ARKit::MouthClose => 18,
            ARKit::MouthFunnel => 19,
            ARKit::MouthPucker => 20,
            ARKit::MouthLeft => 21,
            ARKit::MouthRight => 22,
            ARKit::MouthSmileLeft => 23,
            ARKit::MouthSmileRight => 24,
            ARKit::MouthFrownLeft => 25,
            ARKit::MouthFrownRight => 26,
            ARKit::MouthDimpleLeft => 27,
            ARKit::MouthDimpleRight => 28,
            ARKit::MouthStretchLeft => 29,
            ARKit::MouthStretchRight => 30,
            ARKit::MouthRollLower => 31,
            ARKit::MouthRollUpper => 32,
            ARKit::MouthShrugLower => 33,
            ARKit::MouthShrugUpper => 34,
            ARKit::MouthPressLeft => 35,
            ARKit::MouthPressRight => 36,
            ARKit::MouthLowerDownLeft => 37,
            ARKit::MouthLowerDownRight => 38,
            ARKit::MouthUpperUpLeft => 39,
            ARKit::MouthUpperUpRight => 40,
            ARKit::BrowDownLeft => 41,
            ARKit::BrowDownRight => 42,
            ARKit::BrowInnerUp => 43,
            ARKit::BrowOuterUpLeft => 44,
            ARKit::BrowOuterUpRight => 45,
            ARKit::CheekPuff => 46,
            ARKit::CheekSquintLeft => 47,
            ARKit::CheekSquintRight => 48,
            ARKit::NoseSneerLeft => 49,
            ARKit::NoseSneerRight => 50,
            ARKit::TongueOut => 51,
        }
    }

    /// The shape at a position of output order, if the position is one.
    pub open spec fn at(index: usize) -> Option<ARKit> {
        if index == 0 {
            Some(ARKit::EyeBlinkLeft)
        } else if index == 1 {
            Some(ARKit::EyeLookDownLeft)
        } else if index == 2 {
            Some(ARKit::EyeLookInLeft)
        } else if index == 3 {
            Some(ARKit::EyeLookOutLeft)
        } else if index == 4 {
            Some(ARKit::EyeLookUpLeft)
        } else if index == 5 {
            Some(ARKit::EyeSquintLeft)
        } else if index == 6 {
            Some(ARKit::EyeWideLeft)
        } else if index == 7 {
            Some(ARKit::EyeBlinkRight)
        } else if index == 8 {
            Some(ARKit::EyeLookDownRight)
        } else if index == 9 {
            Some(ARKit::EyeLookInRight)
        } else if index == 10 {
            Some(ARKit::EyeLookOutRight)
        } else if index == 11 {
            Some(ARKit::EyeLookUpRight)
        } else if index == 12 {
            Some(ARKit::EyeSquintRight)
        } else if index == 13 {
            Some(ARKit::EyeWideRight)
        } else if index == 14 {
            Some(ARKit::JawForward)
        } else if index == 15 {
            Some(ARKit::JawLeft)
        } else if index == 16 {
            Some(ARKit::JawRight)
        } else if index == 17 {
            Some(ARKit::JawOpen)
        } else if index == 18 {
            Some(ARKit::MouthClose)
        } else if index == 19 {
            Some(ARKit::MouthFunnel)
        } else if index == 20 {
            Some(ARKit::MouthPucker)
        } else if index == 21 {
            Some(ARKit::MouthLeft)
        } else if index == 22 {
            Some(ARKit::MouthRight)
        } else if index == 23 {
            Some(ARKit::MouthSmileLeft)
        } else if index == 24 {
            Some(ARKit::MouthSmileRight)
        } else if index == 25 {
            Some(ARKit::MouthFrownLeft)
        } else if index == 26 {
            Some(ARKit::MouthFrownRight)
        } else if index == 27 {
            Some(ARKit::MouthDimpleLeft)
        } else if index == 28 {
            Some(ARKit::MouthDimpleRight)
        } else if index == 29 {
            Some(ARKit::MouthStretchLeft)
        } else if index == 30 {
            Some(ARKit::MouthStretchRight)
        } else if index == 31 {
            Some(ARKit::MouthRollLower)
        } else if index == 32 {
            Some(ARKit::MouthRollUpper)
        } else if index == 33 {
            Some(ARKit::MouthShrugLower)
        } else if index == 34 {
            Some(ARKit::MouthShrugUpper)
        } else if index == 35 {
            Some(ARKit::MouthPressLeft)
        } else if index == 36 {
            Some(ARKit::MouthPressRight)
        } else if index == 37 {
            Some(ARKit::MouthLowerDownLeft)
        } else if index == 38 {
            Some(ARKit::MouthLowerDownRight)
        } else if index == 39 {
            Some(ARKit::MouthUpperUpLeft)
        } else if index == 40 {
            Some(ARKit::MouthUpperUpRight)
        } else if index == 41 {
            Some(ARKit::BrowDownLeft)
        } else if index == 42 {
            Some(ARKit::BrowDownRight)
        } else if index == 43 {
            Some(ARKit::BrowInnerUp)
        } else if index == 44 {
            Some(ARKit::BrowOuterUpLeft)
        } else if index == 45 {
            Some(ARKit::BrowOuterUpRight)
        } else if index == 46 {
            Some(ARKit::CheekPuff)
        } else if index == 47 {
            Some(ARKit::CheekSquintLeft)
        } else if index == 48 {
            Some(ARKit::CheekSquintRight)
        } else if index == 49 {
            Some(ARKit::NoseSneerLeft)
        } else if index == 50 {
            Some(ARKit::NoseSneerRight)
        } else if index == 51 {
            Some(ARKit::TongueOut)
        } else {
            None
        }
    }

    /// The position of this shape (0 to 51).
    pub fn as_index(self) -> (r: usize)
        ensures
            r == self.index(),
            r < 52,
    {
        match self {
            ARKit::EyeBlinkLeft => 0,
            ARKit::EyeLookDownLeft => 1,
            ARKit::EyeLookInLeft => 2,
            ARKit::EyeLookOutLeft => 3,
            ARKit::EyeLookUpLeft => 4,
            ARKit::EyeSquintLeft => 5,
            ARKit::EyeWideLeft => 6,
            ARKit::EyeBlinkRight => 7,
            ARKit::EyeLookDownRight => 8,
            ARKit::EyeLookInRight => 9,
            ARKit::EyeLookOutRight => 10,
            ARKit::EyeLookUpRight => 11,
            ARKit::EyeSquintRight => 12,
            ARKit::EyeWideRight => 13,
            ARKit::JawForward => 14,
            ARKit::JawLeft => 15,
            ARKit::JawRight => 16,
            ARKit::JawOpen => 17,
            ARKit::MouthClose => 18,
            ARKit::MouthFunnel => 19,
            ARKit::MouthPucker => 20,
            ARKit::MouthLeft => 21,
            ARKit::MouthRight => 22,
            ARKit::MouthSmileLeft => 23,
            ARKit::MouthSmileRight => 24,
            ARKit::MouthFrownLeft => 25,
            ARKit::MouthFrownRight => 26,
            ARKit::MouthDimpleLeft => 27,
            ARKit::MouthDimpleRight => 28,
            ARKit::MouthStretchLeft => 29,
            ARKit::MouthStretchRight => 30,
            ARKit::MouthRollLower => 31,
            ARKit::MouthRollUpper => 32,
            ARKit::MouthShrugLower => 33,
            ARKit::MouthShrugUpper => 34,
            ARKit::MouthPressLeft => 35,
            ARKit::MouthPressRight => 36,
            ARKit::MouthLowerDownLeft => 37,
            ARKit::MouthLowerDownRight => 38,
            ARKit::MouthUpperUpLeft => 39,
            ARKit::MouthUpperUpRight => 40,
            ARKit::BrowDownLeft => 41,
            ARKit::BrowDownRight => 42,
            ARKit::BrowInnerUp => 43,
            ARKit::BrowOuterUpLeft => 44,
            ARKit::BrowOuterUpRight => 45,
            ARKit::CheekPuff => 46,
            ARKit::CheekSquintLeft => 47,
            ARKit::CheekSquintRight => 48,
            ARKit::NoseSneerLeft => 49,
            ARKit::NoseSneerRight => 50,
            ARKit::TongueOut => 51,
        }
    }

    /// The shape at position `index`, or `None` from 52 on.
    pub fn from_index(index: usize) -> (r: Option<ARKit>)
        ensures
            r == ARKit::at(index),
    {
        match index {
            0 => Some(ARKit::EyeBlinkLeft),
            1 => Some(ARKit::EyeLookDownLeft),
            2 => Some(ARKit::EyeLookInLeft),
            3 => Some(ARKit::EyeLookOutLeft),
            4 => Some(ARKit::EyeLookUpLeft),
            5 => Some(ARKit::EyeSquintLeft),
            6 => Some(ARKit::EyeWideLeft),
            7 => Some(ARKit::EyeBlinkRight),
            8 => Some(ARKit::EyeLookDownRight),
            9 => Some(ARKit::EyeLookInRight),
            10 => Some(ARKit::EyeLookOutRight),
            11 => Some(ARKit::EyeLookUpRight),
            12 => Some(ARKit::EyeSquintRight),
            13 => Some(ARKit::EyeWideRight),
            14 => Some(ARKit::JawForward),
            15 => Some(ARKit::JawLeft),
            16 => Some(ARKit::JawRight),
            17 => Some(ARKit::JawOpen),
            18 => Some(ARKit::MouthClose),
            19 => Some(ARKit::MouthFunnel),
            20 => Some(ARKit::MouthPucker),
            21 => Some(ARKit::MouthLeft),
            22 => Some(ARKit::MouthRight),
            23 => Some(ARKit::MouthSmileLeft),
            24 => Some(ARKit::MouthSmileRight),
            25 => Some(ARKit::MouthFrownLeft),
            26 => Some(ARKit::MouthFrownRight),
            27 => Some(ARKit::MouthDimpleLeft),
            28 => Some(ARKit::MouthDimpleRight),
            29 => Some(ARKit::MouthStretchLeft),
            30 => Some(ARKit::MouthStretchRight),
            31 => Some(ARKit::MouthRollLower),
            32 => Some(ARKit::MouthRollUpper),
            33 => Some(ARKit::MouthShrugLower),
            34 => Some(ARKit::MouthShrugUpper),
            35 => Some(ARKit::MouthPressLeft),
            36 => Some(ARKit::MouthPressRight),
            37 => Some(ARKit::MouthLowerDownLeft),
            38 => Some(ARKit::MouthLowerDownRight),
            39 => Some(ARKit::MouthUpperUpLeft),
            40 => Some(ARKit::MouthUpperUpRight),
            41 => Some(ARKit::BrowDownLeft),
            42 => Some(ARKit::BrowDownRight),
            43 => Some(ARKit::BrowInnerUp),
            44 => Some(ARKit::BrowOuterUpLeft),
            45 => Some(ARKit::BrowOuterUpRight),
            46 => Some(ARKit::CheekPuff),
            47 => Some(ARKit::CheekSquintLeft),
            48 => Some(ARKit::CheekSquintRight),
            49 => Some(ARKit::NoseSneerLeft),
            50 => Some(ARKit::NoseSneerRight),
            51 => Some(ARKit::TongueOut),
            _ => None,
        }
    }

    /// The camel-case name of the shape.
    pub open spec fn name_spec(self) -> Seq<char> {
        match self {
            ARKit::EyeBlinkLeft => "eyeBlinkLeft"@,
            ARKit::EyeLookDownLeft => "eyeLookDownLeft"@,
            ARKit::EyeLookInLeft => "eyeLookInLeft"@,
            ARKit::EyeLookOutLeft => "eyeLookOutLeft"@,
            ARKit::EyeLookUpLeft => "eyeLookUpLeft"@,
            ARKit::EyeSquintLeft => "eyeSquintLeft"@,
            ARKit::EyeWideLeft => "eyeWideLeft"@,
            ARKit::EyeBlinkRight => "eyeBlinkRight"@,
            ARKit::EyeLookDownRight => "eyeLookDownRight"@,
            ARKit::EyeLookInRight => "eyeLookInRight"@,
            ARKit::EyeLookOutRight => "eyeLookOutRight"@,
            ARKit::EyeLookUpRight => "eyeLookUpRight"@,
            ARKit::EyeSquintRight => "eyeSquintRight"@,
            ARKit::EyeWideRight => "eyeWideRight"@,
            ARKit::JawForward => "jawForward"@,
            ARKit::JawLeft => "jawLeft"@,
            ARKit::JawRight => "jawRight"@,
            ARKit::JawOpen => "jawOpen"@,
            ARKit::MouthClose => "mouthClose"@,
            ARKit::MouthFunnel => "mouthFunnel"@,
            ARKit::MouthPucker => "mouthPucker"@,
            ARKit::MouthLeft => "mouthLeft"@,
            ARKit::MouthRight => "mouthRight"@,
            ARKit::MouthSmileLeft => "mouthSmileLeft"@,
            ARKit::MouthSmileRight => "mouthSmileRight"@,
            ARKit::MouthFrownLeft => "mouthFrownLeft"@,
            ARKit::MouthFrownRight => "mouthFrownRight"@,
            ARKit::MouthDimpleLeft => "mouthDimpleLeft"@,
            ARKit::MouthDimpleRight => "mouthDimpleRight"@,
            ARKit::MouthStretchLeft => "mouthStretchLeft"@,
            ARKit::MouthStretchRight => "mouthStretchRight"@,
            ARKit::MouthRollLower => "mouthRollLower"@,
            ARKit::MouthRollUpper => "mouthRollUpper"@,
            ARKit::MouthShrugLower => "mouthShrugLower"@,
            ARKit::MouthShrugUpper => "mouthShrugUpper"@,
            ARKit::MouthPressLeft => "mouthPressLeft"@,
            ARKit::MouthPressRight => "mouthPressRight"@,
            ARKit::MouthLowerDownLeft => "mouthLowerDownLeft"@,
            ARKit::MouthLowerDownRight => "mouthLowerDownRight"@,
            ARKit::MouthUpperUpLeft => "mouthUpperUpLeft"@,
            ARKit::MouthUpperUpRight => "mouthUpperUpRight"@,
            ARKit::BrowDownLeft => "browDownLeft"@,
            ARKit::BrowDownRight => "browDownRight"@,
            ARKit::BrowInnerUp => "browInnerUp"@,
            ARKit::BrowOuterUpLeft => "browOuterUpLeft"@,
            ARKit::BrowOuterUpRight => "browOuterUpRight"@,
            ARKit::CheekPuff => "cheekPuff"@,
            ARKit::CheekSquintLeft => "cheekSquintLeft"@,
            ARKit::CheekSquintRight => "cheekSquintRight"@,
            ARKit::NoseSneerLeft => "noseSneerLeft"@,
            ARKit::NoseSneerRight => "noseSneerRight"@,
            ARKit::TongueOut => "tongueOut"@,
        }
    }

    /// The camel-case name of the shape.
    pub fn name(&self) -> (r: &'static str)
        ensures
            r@ == self.name_spec(),
    {
        match self {
            ARKit::EyeBlinkLeft => "eyeBlinkLeft",
            ARKit::EyeLookDownLeft => "eyeLookDownLeft",
            ARKit::EyeLookInLeft => "eyeLookInLeft",
            ARKit::EyeLookOutLeft => "eyeLookOutLeft",
            ARKit::EyeLookUpLeft => "eyeLookUpLeft",
            ARKit::EyeSquintLeft => "eyeSquintLeft",
            ARKit::EyeWideLeft => "eyeWideLeft",
            ARKit::EyeBlinkRight => "eyeBlinkRight",
            ARKit::EyeLookDownRight => "eyeLookDownRight",
            ARKit::EyeLookInRight => "eyeLookInRight",
            ARKit::EyeLookOutRight => "eyeLookOutRight",
            ARKit::EyeLookUpRight => "eyeLookUpRight",
            ARKit::EyeSquintRight => "eyeSquintRight",
            ARKit::EyeWideRight => "eyeWideRight",
            ARKit::JawForward => "jawForward",
            ARKit::JawLeft => "jawLeft",
            ARKit::JawRight => "jawRight",
            ARKit::JawOpen => "jawOpen",
            ARKit::MouthClose => "mouthClose",
            ARKit::MouthFunnel => "mouthFunnel",
            ARKit::MouthPucker => "mouthPucker",
            ARKit::MouthLeft => "mouthLeft",
            ARKit::MouthRight => "mouthRight",
            ARKit::MouthSmileLeft => "mouthSmileLeft",
            ARKit::MouthSmileRight => "mouthSmileRight",
            ARKit::MouthFrownLeft => "mouthFrownLeft",
            ARKit::MouthFrownRight => "mouthFrownRight",
            ARKit::MouthDimpleLeft => "mouthDimpleLeft",
            ARKit::MouthDimpleRight => "mouthDimpleRight",
            ARKit::MouthStretchLeft => "mouthStretchLeft",
            ARKit::MouthStretchRight => "mouthStretchRight",
            ARKit::MouthRollLower => "mouthRollLower",
            ARKit::MouthRollUpper => "mouthRollUpper",
            ARKit::MouthShrugLower => "mouthShrugLower",
            ARKit::MouthShrugUpper => "mouthShrugUpper",
            ARKit::MouthPressLeft => "mouthPressLeft",
            ARKit::MouthPressRight => "mouthPressRight",
            ARKit::MouthLowerDownLeft => "mouthLowerDownLeft",
            ARKit::MouthLowerDownRight => "mouthLowerDownRight",
            ARKit::MouthUpperUpLeft => "mouthUpperUpLeft",
            ARKit::MouthUpperUpRight => "mouthUpperUpRight",
            ARKit::BrowDownLeft => "browDownLeft",
            ARKit::BrowDownRight => "browDownRight",
            ARKit::BrowInnerUp => "browInnerUp",
            ARKit::BrowOuterUpLeft => "browOuterUpLeft",
            ARKit::BrowOuterUpRight => "browOuterUpRight",
            ARKit::CheekPuff => "cheekPuff",
            ARKit::CheekSquintLeft => "cheekSquintLeft",
            ARKit::CheekSquintRight => "cheekSquintRight",
            ARKit::NoseSneerLeft => "noseSneerLeft",
            ARKit::NoseSneerRight => "noseSneerRight",
            ARKit::TongueOut => "tongueOut",
        }
    }
}

/// Every shape is found again at its own position, and the positions below
/// 52 are exactly the positions of shapes.
pub proof fn lemma_arkit_index_round_trip(x: ARKit, i: usize)
    ensures
        ARKit::at(x.index()) == Some(x),
        ARKit::at(i) is Some <==> i < 52,
        ARKit::at(i) matches Some(y) ==> y.index() == i,
{
}

/// The tongue blend shapes, in target order.
#[derive(Debug, Clone, Copy, PartialEq, Eq, Structural, Hash)]
pub enum TongueShape {
    TongueTipUp,
    TongueTipDown,
    TongueTipLeft,
    TongueTipRight,
    TongueRollUp,
    TongueRollDown,
    TongueRollLeft,
    TongueRollRight,
    TongueUp,
    TongueDown,
    TongueLeft,
    TongueRight,
    TongueIn,
    TongueStretch,
    TongueWide,
    TongueNarrow,
}

impl TongueShape {
    /// The position of the shape in target order.
    pub open spec fn index(self) -> usize {
        match self {
            TongueShape::TongueTipUp => 0,
            TongueShape::TongueTipDown => 1,
            TongueShape::TongueTipLeft => 2,
            TongueShape::TongueTipRight => 3,
            TongueShape::TongueRollUp => 4,
            TongueShape::TongueRollDown => 5,
            TongueShape::TongueRollLeft => 6,
            TongueShape::TongueRollRight => 7,
            TongueShape::TongueUp => 8,
            TongueShape::TongueDown => 9,
            TongueShape::TongueLeft => 10,
            TongueShape::TongueRight => 11,
            TongueShape::TongueIn => 12,
            TongueShape::TongueStretch => 13,
            TongueShape::TongueWide => 14,
            TongueShape::TongueNarrow => 15,
        }
    }

    /// The shape at a position of target order, if the position is one.
    pub open spec fn at(index: usize) -> Option<TongueShape> {
        if index == 0 {
            Some(TongueShape::TongueTipUp)
        } else if index == 1 {
            Some(TongueShape::TongueTipDown)
        } else if index == 2 {
            Some(TongueShape::TongueTipLeft)
        } else if index == 3 {
            Some(TongueShape::TongueTipRight)
        } else if index == 4 {
            Some(TongueShape::TongueRollUp)
        } else if index == 5 {
            Some(TongueShape::TongueRollDown)
        } else if index == 6 {
            Some(TongueShape::TongueRollLeft)
        } else if index == 7 {
            Some(TongueShape::TongueRollRight)
        } else if index == 8 {
            Some(TongueShape::TongueUp)
        } else if index == 9 {
            Some(TongueShape::TongueDown)
        } else if index == 10 {
            Some(TongueShape::TongueLeft)
        } else if index == 11 {
            Some(TongueShape::TongueRight)
        } else if index == 12 {
            Some(TongueShape::TongueIn)
        } else if index == 13 {
            Some(TongueShape::TongueStretch)
        } else if index == 14 {
            Some(TongueShape::TongueWide)
        } else if index == 15 {
            Some(TongueShape::TongueNarrow)
        } else {
            None
        }
    }

    /// The position of this shape (0 to 15).
    pub fn as_index(self) -> (r: usize)
        ensures
            r == self.index(),
            r < 16,
    {
        match self {
            TongueShape::TongueTipUp => 0,
            TongueShape::TongueTipDown => 1,
            TongueShape::TongueTipLeft => 2,
            TongueShape::TongueTipRight => 3,
            TongueShape::TongueRollUp => 4,
            TongueShape::TongueRollDown => 5,
            TongueShape::TongueRollLeft => 6,
            TongueShape::TongueRollRight => 7,
            TongueShape::TongueUp => 8,
            TongueShape::TongueDown => 9,
            TongueShape::TongueLeft => 10,
            TongueShape::TongueRight => 11,
            TongueShape::TongueIn => 12,
            TongueShape::TongueStretch => 13,
            TongueShape::TongueWide => 14,
            TongueShape::TongueNarrow => 15,
        }
    }

    /// The shape at position `index`, or `None` from 16 on.
    pub fn from_index(index: usize) -> (r: Option<TongueShape>)
        ensures
            r == TongueShape::at(index),
    {
        match index {
            0 => Some(TongueShape::TongueTipUp),
            1 => Some(TongueShape::TongueTipDown),
            2 => Some(TongueShape::TongueTipLeft),
            3 => Some(TongueShape::TongueTipRight),
            4 => Some(TongueShape::TongueRollUp),
            5 => Some(TongueShape::TongueRollDown),
            6 => Some(TongueShape::TongueRollLeft),
            7 => Some(TongueShape::TongueRollRight),
            8 => Some(TongueShape::TongueUp),
            9 => Some(TongueShape::TongueDown),
            10 => Some(TongueShape::TongueLeft),
            11 => Some(TongueShape::TongueRight),
            12 => Some(TongueShape::TongueIn),
            13 => Some(TongueShape::TongueStretch),
            14 => Some(TongueShape::TongueWide),
            15 => Some(TongueShape::TongueNarrow),
            _ => None,
        }
    }

    /// The camel-case name of the shape.
    pub open spec fn name_spec(self) -> Seq<char> {
        match self {
            TongueShape::TongueTipUp => "tongueTipUp"@,
            TongueShape::TongueTipDown => "tongueTipDown"@,
            TongueShape::TongueTipLeft => "tongueTipLeft"@,
            TongueShape::TongueTipRight => "tongueTipRight"@,
            TongueShape::TongueRollUp => "tongueRollUp"@,
            TongueShape::TongueRollDown => "tongueRollDown"@,
            TongueShape::TongueRollLeft => "tongueRollLeft"@,
            TongueShape::TongueRollRight => "tongueRollRight"@,
            TongueShape::TongueUp => "tongueUp"@,
            TongueShape::TongueDown => "tongueDown"@,
            TongueShape::TongueLeft => "tongueLeft"@,
            TongueShape::TongueRight => "tongueRight"@,
            TongueShape::TongueIn => "tongueIn"@,
            TongueShape::TongueStretch => "tongueStretch"@,
            TongueShape::TongueWide => "tongueWide"@,
            TongueShape::TongueNarrow => "tongueNarrow"@,
        }
    }

    /// The camel-case name of the shape.
    pub fn name(&self) -> (r: &'static str)
        ensures
            r@ == self.name_spec(),
    {
        match self {
            TongueShape::TongueTipUp => "tongueTipUp",
            TongueShape::TongueTipDown => "tongueTipDown",
            TongueShape::TongueTipLeft => "tongueTipLeft",
            TongueShape::TongueTipRight => "tongueTipRight",
            TongueShape::TongueRollUp => "tongueRollUp",
            TongueShape::TongueRollDown => "tongueRollDown",
            TongueShape::TongueRollLeft => "tongueRollLeft",
            TongueShape::TongueRollRight => "tongueRollRight",
            TongueShape::TongueUp => "tongueUp",
            TongueShape::TongueDown => "tongueDown",
            TongueShape::TongueLeft => "tongueLeft",
            TongueShape::TongueRight => "tongueRight",
            TongueShape::TongueIn => "tongueIn",
            TongueShape::TongueStretch => "tongueStretch",
            TongueShape::TongueWide => "tongueWide",
            TongueShape::TongueNarrow => "tongueNarrow",
        }
    }
}

/// Every shape is found again at its own position, and the positions below
/// 16 are exactly the positions of shapes.
pub proof fn lemma_tongueshape_index_round_trip(x: TongueShape, i: usize)
    ensures
        TongueShape::at(x.index()) == Some(x),
        TongueShape::at(i) is Some <==> i < 16,
        TongueShape::at(i) matches Some(y) ==> y.index() == i,
{
}

} // verus!
