//! Decoders for two chunk-tagged binary asset formats: the XAC model format
//! (geometry, materials, node hierarchy) and the XSM skeletal-animation format
//! (per-bone keyframe tracks).
//!
//! Every decoder works on a byte slice through a [`reader::Reader`] and is
//! verified against a mathematical description of the wire layout.

pub mod bytes;
pub mod error;
pub mod model;
pub mod reader;
pub mod xac;
pub mod xsm;
