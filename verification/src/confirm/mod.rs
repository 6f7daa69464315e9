//! Confirming: binding what an attempt achieved, once every effect of it is there.
//!
//! Each confirmation works on a copy. Where anything differs from the plan there is
//! no copy to store, and the sidecar stays armed: it can be rolled back, and never
//! rolled forward.

pub mod branch_merge;
pub mod common;
pub mod ensure_indices;
pub mod mutation_load;
pub mod schema_apply;
