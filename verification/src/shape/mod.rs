//! The rules that a sidecar has to keep, by writer kind and generation.

pub mod branch_merge;
pub mod defect;
pub mod ensure_indices;
pub mod mutation_load;
pub mod optimize;
pub mod schema_apply;
pub mod sound;
pub mod validate;
