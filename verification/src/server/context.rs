//! What requests are answered from besides the registries.

use vstd::prelude::*;

use crate::registry::grants::WidgetFiles;
use crate::schedule::Clock;
use crate::settings::{FilesystemConfig, SidecarConfig};

verus! {

/// What requests are answered from besides the registries: what the bus retains,
/// the drivers that are there, the files of widgets, the time, and what the
/// parameter `config` reads as.
#[derive(Debug)]
pub struct RpcContext<'a, B, D> {
    pub bus: &'a B,
    pub drivers: &'a D,
    pub files: &'a WidgetFiles,
    pub clock: Clock,
    pub sidecar_config: &'a Result<SidecarConfig, String>,
    pub filesystem_config: &'a Result<FilesystemConfig, String>,
}

} // verus!
