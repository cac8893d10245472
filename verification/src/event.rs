//! What the game reports, and what drivers deliver.

use vstd::prelude::*;

verus! {

/// A report of the game: an entry of its journal, or its present status.
#[derive(Debug)]
pub enum Event {
    Journal { timestamp: String, event: String, raw: serde_json::Value, replay: bool },
    Status { raw: serde_json::Value },
}

/// A message that a driver sends to a plugin.
#[derive(Debug, PartialEq, Eq)]
pub struct Delivery {
    pub plugin_id: String,
    pub driver_id: String,
    pub topic: String,
    pub payload: Vec<u8>,
}

pub struct DeliveryView {
    pub plugin_id: Seq<char>,
    pub driver_id: Seq<char>,
    pub topic: Seq<char>,
    pub payload: Seq<u8>,
}

impl View for Delivery {
    type V = DeliveryView;

    open spec fn view(&self) -> DeliveryView {
        DeliveryView {
            plugin_id: self.plugin_id@,
            driver_id: self.driver_id@,
            topic: self.topic@,
            payload: self.payload@,
        }
    }
}

} // verus!
