//! The core of a plugin daemon: schedules, work queues, plugin and driver
//! registries, their approvals, and the remote calls over them.

pub mod capability;
pub mod event;
pub mod framing;
pub mod json;
pub mod keyed;
pub mod manifest;
pub mod path;
pub mod registry;
pub mod rpc;
pub mod runner;
pub mod runtime;
pub mod schedule;
pub mod server;
pub mod settings;
pub mod text;
