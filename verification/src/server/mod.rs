//! What clients ask, and what they are told.

pub mod assets;
pub mod context;
pub mod entries;
pub mod frames;
pub mod origin;
pub mod replay;
pub mod request;
pub mod rpc;
pub mod rpc_drivers;
pub mod rpc_plugins;
pub mod rpc_profiler;
pub mod rpc_subjects;
