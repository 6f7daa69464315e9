//! What holds of the library as a whole: how its operations fit together.

pub mod announcing;
pub mod classifying;
pub mod confirming;
pub mod deciding;
pub mod ending;
pub mod exact;
pub mod finding;
pub mod finishing;
pub mod forking;
pub mod forwarding;
pub mod outcomes;
pub mod publishing;
pub mod reaching;
pub mod reading;
pub mod restoring;
pub mod ruling;
pub mod selecting;
pub mod steps;
pub mod storing;
pub mod undoing;
