//! Channels: directed edges between two nodes.
//!
//! A channel's record holds what is counted and switched: whether the channel
//! is active, and how many signals have passed. What is measured of a channel
//! (its weight, bandwidth and latency) is not part of the record.

use crate::utils::clock::Timestamp;
use crate::utils::ident::{fresh_id, is_uuid_text};
use vstd::prelude::*;

verus! {

/// What kind of relation a channel carries.
#[derive(Debug, Clone, PartialEq)]
pub enum SignalType {
    DataFlow,
    ControlFlow,
    DependencyLink,
    CallGraph,
    Bidirectional,
    Custom(String),
}

/// `properties` pairs a key with a JSON text.
#[derive(Debug, Clone)]
pub struct ChannelMetadata {
    pub created_at: Timestamp,
    pub signal_count: u64,
    pub properties: Vec<(String, String)>,
}

#[derive(Debug, Clone)]
pub struct NeuralChannel {
    pub id: String,
    pub from_node_id: String,
    pub to_node_id: String,
    pub signal_type: SignalType,
    pub metadata: ChannelMetadata,
    pub active: bool,
}

impl NeuralChannel {
    /// A channel as `new` leaves it, whatever its identity and age: active,
    /// with no signal passed and no properties.
    pub open spec fn is_unused(&self) -> bool {
        &&& self.active
        &&& self.metadata.signal_count == 0
        &&& self.metadata.properties@.len() == 0
    }

    /// An active channel with a fresh random identifier, created now.
    pub fn new(from_node_id: String, to_node_id: String, signal_type: SignalType) -> (channel:
        NeuralChannel)
        ensures
            is_uuid_text(channel.id@),
            channel.from_node_id == from_node_id,
            channel.to_node_id == to_node_id,
            channel.signal_type == signal_type,
            channel.is_unused(),
    {
        Self::with_id_at(fresh_id(), Timestamp::now(), from_node_id, to_node_id, signal_type)
    }

    /// An active channel with the identifier and the time of creation given.
    pub fn with_id_at(
        id: String,
        created_at: Timestamp,
        from_node_id: String,
        to_node_id: String,
        signal_type: SignalType,
    ) -> (channel: NeuralChannel)
        ensures
            channel.id == id,
            channel.metadata.created_at == created_at,
            channel.from_node_id == from_node_id,
            channel.to_node_id == to_node_id,
            channel.signal_type == signal_type,
            channel.is_unused(),
    {
        NeuralChannel {
            id,
            from_node_id,
            to_node_id,
            signal_type,
            metadata: ChannelMetadata { created_at, signal_count: 0, properties: Vec::new() },
            active: true,
        }
    }

    /// Lets one signal pass if the channel is active, and counts it. An
    /// inactive channel passes nothing and counts nothing.
    pub fn transmit_signal(&mut self) -> (passed: bool)
        requires
            old(self).active ==> old(self).metadata.signal_count < u64::MAX,
        ensures
            passed == old(self).active,
            final(self).metadata.signal_count == old(self).metadata.signal_count + (if passed {
                1int
            } else {
                0int
            }),
            *final(self) == (NeuralChannel {
                metadata: ChannelMetadata {
                    signal_count: final(self).metadata.signal_count,
                    ..old(self).metadata
                },
                ..*old(self)
            }),
    {
        if !self.active {
            return false;
        }
        self.metadata.signal_count = self.metadata.signal_count + 1;
        true
    }

    pub fn deactivate(&mut self)
        ensures
            *final(self) == (NeuralChannel { active: false, ..*old(self) }),
    {
        self.active = false;
    }

    pub fn reactivate(&mut self)
        ensures
            *final(self) == (NeuralChannel { active: true, ..*old(self) }),
    {
        self.active = true;
    }
}

} // verus!
