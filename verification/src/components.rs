//! Tags for the parts a character is built from.
use vstd::prelude::*;

verus! {

/// Which part of a character an entity is.
#[derive(Debug, Clone, Copy, PartialEq, Eq, Structural, Hash)]
pub enum MHTag {
    Armature,
    Skin,
    Hair,
    Eyes,
    Teeth,
    Tongue,
    Eyebrows,
    Eyelashes,
    Clothes,
    Collider,
}

impl MHTag {
    /// The tag's name, as it is shown.
    pub open spec fn name_spec(self) -> Seq<char> {
        match self {
            MHTag::Armature => "Armature"@,
            MHTag::Skin => "Skin"@,
            MHTag::Hair => "Hair"@,
            MHTag::Eyes => "Eyes"@,
            MHTag::Teeth => "Teeth"@,
            MHTag::Tongue => "Tongue"@,
            MHTag::Eyebrows => "Eyebrows"@,
            MHTag::Eyelashes => "Eyelashes"@,
            MHTag::Clothes => "Clothes"@,
            MHTag::Collider => "Collider"@,
        }
    }

    /// The tag's name, as it is shown (the variant's name).
    pub fn name(&self) -> (r: &'static str)
        ensures
            r@ == self.name_spec(),
    {
        match self {
            MHTag::Armature => "Armature",
            MHTag::Skin => "Skin",
            MHTag::Hair => "Hair",
            MHTag::Eyes => "Eyes",
            MHTag::Teeth => "Teeth",
            MHTag::Tongue => "Tongue",
            MHTag::Eyebrows => "Eyebrows",
            MHTag::Eyelashes => "Eyelashes",
            MHTag::Clothes => "Clothes",
            MHTag::Collider => "Collider",
        }
    }

    /// Whether a part's fitted vertices are pushed out along the surface by
    /// the clothing offset: clothes are, every other part is fitted without
    /// an offset.
    pub fn uses_clothing_offset(&self) -> (r: bool)
        ensures
            r == (*self == MHTag::Clothes),
    {
        match self {
            MHTag::Clothes => true,
            _ => false,
        }
    }
}

} // verus!
