//! Processing: from a sidecar and what was seen of its tables to the next step of
//! its recovery.

pub mod forks;
pub mod general;
pub mod indices;
pub mod merge;
pub mod schema;
pub mod step;
