use vstd::prelude::*;

pub mod adapter;
pub mod brain;
pub mod cli;
pub mod conformance;
pub mod digits;
pub mod fixture;
pub mod hash;
pub mod json;
pub mod kernel;
pub mod names;
pub mod planner;
pub mod proto;
pub mod proxy;
pub mod service;
pub mod smap;
pub mod sort;
pub mod text;
pub mod wire;

verus! {
} // verus!
