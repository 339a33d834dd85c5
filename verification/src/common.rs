//! Identifiers, radio parameters, simulation events and the LoRa packet
//! wrapper shared by the simulation entities.
use vstd::prelude::*;
use crate::header::{payload_label, route_is_direct, route_is_flood, route_label};
use crate::packet::{Destination, MeshCorePacket, PublicKeyHash};
use crate::sim_time::SimTime;
use crate::text::{hex_lower, push_hex};

verus! {

/// Simulation errors.
#[derive(Debug, Clone)]
pub enum SimError {
    /// Entity not found.
    EntityNotFound(EntityId),
    /// Invalid event target.
    InvalidTarget(EntityId),
    /// Simulation time overflow.
    TimeOverflow,
    /// Event handler error.
    HandlerError {
        /// Entity that had the error.
        entity: EntityId,
        /// Error message.
        message: String,
    },
}

/// Unique identifier for an entity in the simulation.
#[derive(Debug, Clone, Copy, PartialEq, Eq, PartialOrd, Ord, Hash, Structural)]
pub struct EntityId(pub u64);

impl EntityId {
    /// Create a new entity ID.
    pub fn new(id: u64) -> (e: Self)
        ensures
            e.0 == id,
    {
        EntityId(id)
    }
}

/// Node identifier (public key).
#[derive(Debug, Clone, Copy, PartialEq, Eq, Hash)]
pub struct NodeId(pub [u8; 32]);

/// Two lower-case hex digits per byte.
pub open spec fn bytes_hex_lower(b: Seq<u8>) -> Seq<char>
    decreases b.len(),
{
    if b.len() == 0 {
        Seq::empty()
    } else {
        bytes_hex_lower(b.drop_last()) + hex_lower(b.last() as nat, 2)
    }
}

impl NodeId {
    /// Create a new node ID from bytes.
    pub fn from_bytes(bytes: [u8; 32]) -> (n: Self)
        ensures
            n.0 == bytes,
    {
        NodeId(bytes)
    }

    /// Get the public key hash (first 6 bytes).
    pub fn public_key_hash(&self) -> (h: PublicKeyHash)
        ensures
            h@ == self.0@.take(6),
    {
        let h: [u8; 6] = [self.0[0], self.0[1], self.0[2], self.0[3], self.0[4], self.0[5]];
        assert(h@ =~= self.0@.take(6));
        h
    }

    /// The display form: the first six bytes as lower-case hex.
    pub fn display(&self) -> (s: String)
        ensures
            s@ == bytes_hex_lower(self.0@.take(6)),
    {
        let mut s = String::new();
        let mut i: usize = 0;
        while i < 6
            invariant
                i <= 6,
                s@ == bytes_hex_lower(self.0@.take(i as int)),
            decreases 6 - i,
        {
            push_hex(&mut s, self.0[i] as u64, 2, false);
            assert(self.0@.take(i + 1).drop_last() =~= self.0@.take(i as int));
            i = i + 1;
        }
        s
    }
}

/// Unique identifier for an event.
#[derive(Debug, Clone, Copy, PartialEq, Eq, Hash, Structural)]
pub struct EventId(pub u64);

/// LoRa radio parameters.
#[derive(Debug, Clone, Copy, PartialEq, Eq, Structural)]
pub struct RadioParams {
    /// Frequency in Hz.
    pub frequency_hz: u32,
    /// Bandwidth in Hz.
    pub bandwidth_hz: u32,
    /// Spreading factor (7-12).
    pub spreading_factor: u8,
    /// Coding rate (5-8, representing 4/5 to 4/8).
    pub coding_rate: u8,
    /// Transmit power in dBm.
    pub tx_power_dbm: i8,
}

/// LoRa packet wrapper with an optional pre-decoded MeshCore packet.
#[derive(Debug, Clone)]
pub struct LoraPacket {
    /// Raw payload bytes.
    pub payload: Vec<u8>,
    /// Pre-decoded MeshCore packet.
    decoded: Option<MeshCorePacket>,
}

impl LoraPacket {
    /// The pre-decoded packet, if any.
    pub closed spec fn spec_decoded(&self) -> Option<MeshCorePacket> {
        self.decoded
    }

    /// The raw payload bytes.
    pub closed spec fn spec_payload(&self) -> Seq<u8> {
        self.payload@
    }

    /// The number of payload bytes.
    pub fn payload_len(&self) -> (n: usize)
        ensures
            n == self.spec_payload().len(),
    {
        self.payload.len()
    }

    /// Create a LoRa packet from raw bytes without decoding.
    pub fn from_bytes(payload: Vec<u8>) -> (p: Self)
        ensures
            p.spec_payload() == payload@,
            p.spec_decoded() is None,
    {
        LoraPacket { payload, decoded: None }
    }

    /// Get the pre-decoded MeshCore packet, if decode succeeded.
    pub fn decoded(&self) -> (d: Option<&MeshCorePacket>)
        ensures
            match self.spec_decoded() {
                Some(p) => d == Some(&p),
                None => d is None,
            },
    {
        match &self.decoded {
            Some(p) => Some(p),
            None => None,
        }
    }

    /// Get the payload type label for metrics; "unknown" if not decoded.
    pub fn payload_type_label(&self) -> (s: &'static str)
        ensures
            match self.spec_decoded() {
                Some(p) => s@ == payload_label(p.header.payload_type),
                None => s@ == "unknown"@,
            },
    {
        match &self.decoded {
            Some(p) => p.payload_type().as_label(),
            None => "unknown",
        }
    }

    /// Get the route type label for metrics; "unknown" if not decoded.
    pub fn route_type_label(&self) -> (s: &'static str)
        ensures
            match self.spec_decoded() {
                Some(p) => s@ == route_label(p.header.route_type),
                None => s@ == "unknown"@,
            },
    {
        match &self.decoded {
            Some(p) => p.route_type().as_label(),
            None => "unknown",
        }
    }

    /// Check if this is a flood-routed packet; false if not decoded.
    pub fn is_flood(&self) -> (b: bool)
        ensures
            b == (self.spec_decoded() matches Some(p) && route_is_flood(p.header.route_type)),
    {
        match &self.decoded {
            Some(p) => p.is_flood(),
            None => false,
        }
    }

    /// Check if this is a direct-routed packet; false if not decoded.
    pub fn is_direct(&self) -> (b: bool)
        ensures
            b == (self.spec_decoded() matches Some(p) && route_is_direct(p.header.route_type)),
    {
        match &self.decoded {
            Some(p) => p.is_direct(),
            None => false,
        }
    }
}

/// Transmit air event - broadcast when a radio begins transmission.
#[derive(Debug, Clone)]
pub struct TransmitAirEvent {
    /// Radio that is transmitting.
    pub radio_id: EntityId,
    /// The packet being transmitted.
    pub packet: LoraPacket,
    /// Radio parameters for this transmission.
    pub params: RadioParams,
    /// When transmission will end.
    pub end_time: SimTime,
}

/// States visible to firmware via RadioStateChangedEvent.
#[derive(Debug, Clone, Copy, PartialEq, Eq, Structural)]
pub enum RadioState {
    /// Ready to receive packets, can start TX.
    Receiving,
    /// Actively transmitting, cannot receive.
    Transmitting,
}

/// Radio state machine changed (Radio to Firmware event).
#[derive(Debug, Clone)]
pub struct RadioStateChangedEvent {
    /// The new radio state.
    pub new_state: RadioState,
    /// Incremented on each state change for ordering.
    pub state_version: u32,
}

/// Firmware requests radio to transmit a packet (Firmware to Radio event).
#[derive(Debug, Clone)]
pub struct RadioTxRequestEvent {
    /// The packet to transmit.
    pub packet: LoraPacket,
}

/// Message send event data.
#[derive(Debug, Clone)]
pub struct MessageSendEvent {
    /// Message destination.
    pub destination: Destination,
    /// Message content.
    pub content: String,
    /// Whether to request an acknowledgment.
    pub want_ack: bool,
}

/// Message acknowledged event data.
#[derive(Debug, Clone)]
pub struct MessageAckedEvent {
    /// Hash of the original packet.
    pub original_hash: [u8; 6],
    /// Number of hops.
    pub hop_count: u8,
}

/// Serial data received from external source.
#[derive(Debug, Clone)]
pub struct SerialRxEvent {
    /// The received data.
    pub data: Vec<u8>,
}

/// Serial data to be sent to external source.
#[derive(Debug, Clone)]
pub struct SerialTxEvent {
    /// The data to send.
    pub data: Vec<u8>,
}

} // verus!
