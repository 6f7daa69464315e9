//! Crash recovery for a multi-table graph store.

pub mod arm;
pub mod batch;
pub mod classify;
pub mod confirm;
pub mod db;
pub mod error;
pub mod history;
pub mod identity;
pub mod laws;
pub mod lineage;
pub mod lookup;
pub mod order;
pub mod outcome;
pub mod process;
pub mod publish;
pub mod rollback;
pub mod rollforward;
pub mod rows;
pub mod shape;
pub mod sidecar;
pub mod snapshot;
pub mod state;
pub mod store;
pub mod sweep;
pub mod text;
pub mod value;
