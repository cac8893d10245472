//! Running plugins.

pub mod event_loop;
pub mod queue;
pub mod start;
pub mod subscriber;

use std::sync::Arc;

use vstd::prelude::*;

use crate::event::{Delivery, Event};

verus! {

/// How much work waits for a plugin before old work has to go.
pub const PLUGIN_WORK_QUEUE_CAPACITY: usize = 64;

/// What a plugin's thread has to do. Events, deliveries and completed jobs
/// share one queue, so that a plugin is only ever in one call.
#[derive(Debug)]
pub enum PluginWork {
    Event(Arc<Event>),
    Message(Delivery),
    /// A job that the plugin submitted has ended. The generation tells the
    /// instance that submitted it.
    JobComplete { generation: u64, job_id: u64, result_json: String },
    /// The daemon is going down.
    Stop,
}

} // verus!
