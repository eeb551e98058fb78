//! MakeHuman asset formats and the rules that turn them into a character:
//! parsers for the text asset files, vertex-group and rig bookkeeping,
//! skeleton hierarchy queries, mesh index lookups and option filtering.
pub mod assets;
pub mod blend_shapes;
pub mod components;
pub mod filter;
pub mod loaders;
pub mod mesh_lookup;
pub mod name_map;
pub mod skeleton;
pub mod text;
