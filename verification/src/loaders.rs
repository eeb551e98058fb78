//! Parsers for the MakeHuman asset files.
pub mod mhclo;
pub mod mhmat;
pub mod morph_target;
pub mod pose;
pub mod rig;
pub mod skin_weights;
pub mod vertex_groups;
pub mod proxy;
