//! Supervision engine for per-user application server instances: port
//! allocation, the instance lifecycle state machine, health tracking,
//! configuration rules, events and metrics.

pub mod api;
pub mod config;
pub mod error;
pub mod events;
pub mod health;
pub mod instance;
pub mod manager;
pub mod metrics;
pub mod port;
pub mod procfs;
pub mod supervisor;
pub mod text;

pub use error::ManagerError;
