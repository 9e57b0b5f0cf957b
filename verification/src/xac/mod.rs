//! The XAC model format: enums of its type tags, the decoded document, and
//! the decoders.

pub mod xac_enums;
pub mod xac_forest;
pub mod xac_layers;
pub mod xac_material;
pub mod xac_mesh;
pub mod xac_nodes;
pub mod xac_parser;
pub mod xac_structs;
