//! The XSM skeletal-animation format: its chunk type tags, the decoded
//! document, and the decoders.

pub mod xsm_enums;
pub mod xsm_parser;
pub mod xsm_structs;
