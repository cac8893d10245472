//! Requests and their responses.

pub mod info;
pub mod params;
pub mod profiler;
pub mod render;
