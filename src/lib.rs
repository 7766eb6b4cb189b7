//! Provisioning and build orchestration for running a build tool across many
//! game versions in parallel: version resolution, runtime provisioning
//! decisions, worker-pool sizing, build-task arguments and outcome
//! aggregation, all as verified functions over plain values.

pub mod text;
pub mod error;
pub mod os;
pub mod distinct;
pub mod schedule;
pub mod mojang;
pub mod adoptium;
pub mod layout;
pub mod task;
pub mod spigot;
