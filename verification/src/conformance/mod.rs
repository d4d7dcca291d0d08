//! The conformance suite: vectors written with protocol names, their
//! conversion to requests, and the comparison of a run with what a vector
//! expects.
pub mod vector;
pub mod convert;
pub mod check;
