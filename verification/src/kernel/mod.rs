//! The reference RMVM kernel: static plan validation, step execution,
//! proofs and rendering.
pub mod fields;
pub mod regs;
pub mod options;
pub mod ops;
pub mod ops2;
pub mod cite;
pub mod asserts;
pub mod narrative;
pub mod merkle;
pub mod render;
pub mod validate;
pub mod machine;
pub mod laws;
pub mod oplaws;
