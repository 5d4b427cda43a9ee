//! What holds of every fight, proved from what the functions of the library
//! promise.

pub mod causality;
pub mod determinism;
pub mod hit_points;
pub mod length;
pub mod lineage;
pub mod plain_log;
pub mod replay;
pub mod waning;
