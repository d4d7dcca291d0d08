//! The planner guard: the prompt a planner model is given, reading its JSON
//! plan, checking a plan against a manifest, and the deterministic plan used
//! when no planner is asked.
pub mod parse;
pub mod guard;
pub mod laws;
