//! MeshCore packets: header, routing path and payload, the payload hash that
//! identifies a packet across routing paths, and legacy helper types.
//!
//! Wire layout: header byte; four transport-code bytes when the route type
//! carries them; path length byte; path; payload.
use vstd::prelude::*;
use sha2::Digest;
use crate::header::{
    payload_code, payload_field, payload_type_byte, payload_type_of_code, route_from_bits,
    route_has_transport, route_is_direct, route_is_flood, route_name, payload_name, PacketHeader,
    PayloadType, PayloadVersion, RouteType, TransportCodes,
};
use crate::payload::{
    no_flags, payload_kind, AckPayload, AdvertFlags, AdvertPayload, EncryptedHeader,
    GroupMessagePayload, PacketPayload, TextMessagePayload,
};
use crate::text::{hex_upper, hex_digit_upper, decimal, push_decimal, u64_hex_upper, lemma_hex_upper_len};

verus! {

/// Maximum packet size in bytes.
pub const MAX_PACKET_SIZE: usize = 255;

/// Maximum path size in bytes.
pub const MAX_PATH_SIZE: usize = 64;

/// Maximum payload size in bytes.
pub const MAX_PACKET_PAYLOAD: usize = 184;

// ----------------------------------------------------------------------------
// SHA-256
// ----------------------------------------------------------------------------

/// The SHA-256 digest of a byte sequence.
pub uninterp spec fn sha256(data: Seq<u8>) -> Seq<u8>;

/// Computes the SHA-256 digest with `sha2::Sha256::digest`. The contract
/// names the digest and states its length (32 bytes, the output size of
/// `Sha256`); what the digest is on given bytes is left to the name.
#[verifier::external_body]
fn sha256_digest(data: &[u8]) -> (d: Vec<u8>)
    ensures
        d@ == sha256(data@),
        d@.len() == 32,
{
    sha2::Sha256::digest(data).to_vec()
}

// ----------------------------------------------------------------------------
// Big-endian values
// ----------------------------------------------------------------------------

/// The unsigned big-endian value of a byte sequence.
pub open spec fn be_value(s: Seq<u8>) -> nat
    decreases s.len(),
{
    if s.len() == 0 {
        0
    } else {
        (be_value(s.drop_last()) * 256 + s.last()) as nat
    }
}

/// `256` to the power `n`.
pub open spec fn pow256(n: nat) -> nat
    decreases n,
{
    if n == 0 {
        1
    } else {
        256 * pow256((n - 1) as nat)
    }
}

proof fn lemma_be_value_bound(s: Seq<u8>)
    ensures
        be_value(s) < pow256(s.len()),
    decreases s.len(),
{
    if s.len() > 0 {
        lemma_be_value_bound(s.drop_last());
        let p = pow256((s.len() - 1) as nat);
        let v = be_value(s.drop_last());
        assert(v * 256 + s.last() < p * 256) by (nonlinear_arith)
            requires
                v < p,
                s.last() < 256,
        ;
    }
}

/// The big-endian value of the first eight bytes (`u64::from_be_bytes`).
pub fn be_u64_prefix(d: &[u8]) -> (v: u64)
    requires
        d@.len() >= 8,
    ensures
        v == be_value(d@.take(8)),
{
    let mut acc: u64 = 0;
    let mut i: usize = 0;
    assert(pow256(8) == 0x1_0000_0000_0000_0000) by {
        reveal_with_fuel(pow256, 9);
    }
    while i < 8
        invariant
            i <= 8,
            d@.len() >= 8,
            acc == be_value(d@.take(i as int)),
            pow256(8) == 0x1_0000_0000_0000_0000,
        decreases 8 - i,
    {
        proof {
            lemma_be_value_bound(d@.take(i as int));
            lemma_pow256_mono(i as nat, 7);
            assert(d@.take(i + 1).drop_last() =~= d@.take(i as int));
        }
        assert(pow256(7) == 0x1_0000_0000_0000_00) by {
            reveal_with_fuel(pow256, 8);
        }
        acc = acc * 256 + d[i] as u64;
        i = i + 1;
    }
    acc
}

proof fn lemma_pow256_mono(a: nat, b: nat)
    requires
        a <= b,
    ensures
        pow256(a) <= pow256(b),
    decreases b,
{
    if a < b {
        lemma_pow256_mono(a, (b - 1) as nat);
    }
}

// ----------------------------------------------------------------------------
// Payload hash
// ----------------------------------------------------------------------------

/// Offset of the path length byte: after the header and, when the route type
/// carries them, the four transport-code bytes.
pub open spec fn path_len_offset(header: u8) -> int {
    if route_has_transport(route_from_bits(header)) {
        5
    } else {
        1
    }
}

/// The bytes hashed to identify a raw packet: the payload type code, then (for
/// TRACE packets only) the path length, then every byte after the path.
/// `None` when the bytes are empty, name a reserved payload type, or end before
/// the path length byte or inside the path.
pub open spec fn hash_input(bytes: Seq<u8>) -> Option<Seq<u8>> {
    if bytes.len() == 0 {
        None
    } else {
        let h = bytes[0];
        match payload_type_of_code(payload_field(h)) {
            None => None,
            Some(pt) => {
                let off = path_len_offset(h);
                if bytes.len() <= off {
                    None
                } else {
                    let path_len = bytes[off];
                    let start = off + 1 + path_len;
                    if start > bytes.len() {
                        None
                    } else {
                        Some(
                            seq![payload_code(pt)] + (if pt == PayloadType::Trace {
                                seq![path_len]
                            } else {
                                Seq::empty()
                            }) + bytes.skip(start),
                        )
                    }
                }
            },
        }
    }
}

/// The 64-bit packet hash of some hash input: the first eight bytes of its
/// SHA-256 digest read big-endian.
pub open spec fn digest_prefix_u64(input: Seq<u8>) -> nat {
    be_value(sha256(input).take(8))
}

/// The hash of raw packet bytes, as `payload_hash_from_bytes` computes it.
pub open spec fn raw_payload_hash(bytes: Seq<u8>) -> Option<nat> {
    match hash_input(bytes) {
        Some(i) => Some(digest_prefix_u64(i)),
        None => None,
    }
}

/// A wrapper type for payload hashes, suitable for use as metric labels.
#[derive(Debug, Clone, Copy, PartialEq, Eq, Hash, Structural)]
pub struct PayloadHash(pub u64);

impl PayloadHash {
    /// Creates a new `PayloadHash` from a raw u64 hash value.
    pub fn new(hash: u64) -> (h: Self)
        ensures
            h.0 == hash,
    {
        PayloadHash(hash)
    }

    /// Creates a `PayloadHash` from raw packet bytes; `None` if the bytes
    /// cannot be framed.
    pub fn from_bytes(bytes: &[u8]) -> (r: Option<Self>)
        ensures
            r is Some <==> hash_input(bytes@) is Some,
            r matches Some(h) ==> Some(h.0 as nat) == raw_payload_hash(bytes@),
    {
        match MeshCorePacket::payload_hash_from_bytes(bytes) {
            Some(h) => Some(PayloadHash(h)),
            None => None,
        }
    }

    /// Returns the raw u64 hash value.
    pub fn as_u64(&self) -> (v: u64)
        ensures
            v == self.0,
    {
        self.0
    }

    /// Returns the hash as a 16-character uppercase hex string (zero padded).
    pub fn as_hex(&self) -> (s: String)
        ensures
            s@ == hex_upper(self.0 as nat, 16),
            s@.len() == 16,
    {
        u64_hex_upper(self.0)
    }

    /// Returns the hash as a label string suitable for metrics (same as
    /// [`Self::as_hex`]).
    pub fn as_label(&self) -> (s: String)
        ensures
            s@ == hex_upper(self.0 as nat, 16),
            s@.len() == 16,
    {
        self.as_hex()
    }
}

impl From<u64> for PayloadHash {
    fn from(hash: u64) -> (h: Self) {
        PayloadHash(hash)
    }
}

impl vstd::std_specs::convert::FromSpecImpl<u64> for PayloadHash {
    open spec fn obeys_from_spec() -> bool {
        true
    }

    open spec fn from_spec(hash: u64) -> PayloadHash {
        PayloadHash(hash)
    }
}

impl From<PayloadHash> for u64 {
    fn from(hash: PayloadHash) -> (v: Self) {
        hash.0
    }
}

impl vstd::std_specs::convert::FromSpecImpl<PayloadHash> for u64 {
    open spec fn obeys_from_spec() -> bool {
        true
    }

    open spec fn from_spec(hash: PayloadHash) -> u64 {
        hash.0
    }
}

/// The value of an upper-case hexadecimal digit.
pub open spec fn hex_digit_value(c: char) -> nat {
    if '0' <= c && c <= '9' {
        (c as nat - '0' as nat) as nat
    } else {
        (c as nat - 'A' as nat + 10) as nat
    }
}

/// The value of a string of upper-case hexadecimal digits.
pub open spec fn hex_value(s: Seq<char>) -> nat
    decreases s.len(),
{
    if s.len() == 0 {
        0
    } else {
        hex_value(s.drop_last()) * 16 + hex_digit_value(s.last())
    }
}

proof fn lemma_digit_value(n: nat)
    requires
        n < 16,
    ensures
        hex_digit_value(hex_digit_upper(n)) == n,
{
}

/// The sixteen-digit hex form of a hash loses nothing: reading the digits back
/// gives the hash, so distinct hashes have distinct labels.
pub proof fn lemma_hash_hex_roundtrip(v: u64)
    ensures
        hex_value(hex_upper(v as nat, 16)) == v,
        hex_upper(v as nat, 16).len() == 16,
{
    assert(pow16(16) == 0x1_0000_0000_0000_0000) by {
        reveal_with_fuel(pow16, 17);
    }
    lemma_hex_value_upper(v as nat, 16);
    lemma_hex_upper_len(v as nat, 16);
}

/// `16` to the power `n`.
pub open spec fn pow16(n: nat) -> nat
    decreases n,
{
    if n == 0 {
        1
    } else {
        16 * pow16((n - 1) as nat)
    }
}

proof fn lemma_hex_value_upper(v: nat, w: nat)
    requires
        v < pow16(w),
    ensures
        hex_value(hex_upper(v, w)) == v,
    decreases w,
{
    if w > 0 {
        let p = pow16((w - 1) as nat);
        assert(v / 16 < p) by (nonlinear_arith)
            requires
                v < 16 * p,
        ;
        lemma_hex_value_upper(v / 16, (w - 1) as nat);
        lemma_digit_value(v % 16);
        let s = hex_upper(v, w);
        assert(s.drop_last() == hex_upper(v / 16, (w - 1) as nat));
        assert(v == (v / 16) * 16 + v % 16) by (nonlinear_arith);
    } else {
        assert(v == 0);
    }
}

// ----------------------------------------------------------------------------
// Packet
// ----------------------------------------------------------------------------

/// A MeshCore network packet.
#[derive(Debug, Clone)]
pub struct MeshCorePacket {
    /// Packet header.
    pub header: PacketHeader,
    /// Routing path (node hashes).
    pub path: Vec<u8>,
    /// Packet payload.
    pub payload: PacketPayload,
}

/// The header that `MeshCorePacket::new` builds for a route type and payload.
pub open spec fn new_header(route_type: RouteType, payload: PacketPayload) -> PacketHeader {
    PacketHeader {
        route_type,
        payload_type: payload_kind(payload),
        version: PayloadVersion::V1,
        transport_codes: if route_has_transport(route_type) {
            Some(TransportCodes { code1: 0, code2: 0 })
        } else {
            None
        },
        path_len: 0,
    }
}

/// Debug name of a payload version.
pub open spec fn version_name(v: PayloadVersion) -> Seq<char> {
    match v {
        PayloadVersion::V1 => "V1"@,
        PayloadVersion::V2 => "V2"@,
        PayloadVersion::V3 => "V3"@,
        PayloadVersion::V4 => "V4"@,
    }
}

/// The human-readable one-line form of a packet.
pub open spec fn packet_display(rt: RouteType, pt: PayloadType, v: PayloadVersion, path_len: nat) -> Seq<char> {
    "Packet { route: "@ + route_name(rt) + ", type: "@ + payload_name(pt) + ", version: "@
        + version_name(v) + ", path_len: "@ + decimal(path_len) + " }"@
}

impl Default for MeshCorePacket {
    fn default() -> (p: Self)
        ensures
            p.header.route_type == RouteType::Flood,
            p.header.payload_type == PayloadType::Advert,
            p.header.version == PayloadVersion::V1,
            p.header.transport_codes is None,
            p.header.path_len == 0,
            p.path@.len() == 0,
            p.payload matches PacketPayload::Raw(v) && v@.len() == 0,
    {
        MeshCorePacket {
            header: PacketHeader::default(),
            path: Vec::new(),
            payload: PacketPayload::default(),
        }
    }
}

impl MeshCorePacket {
    /// Calculate the packet hash from raw packet bytes without decoding the
    /// payload: SHA-256 over the payload type byte, the path length for TRACE
    /// packets, and the payload bytes; the first eight digest bytes read
    /// big-endian. `None` if the bytes cannot be framed.
    pub fn payload_hash_from_bytes(bytes: &[u8]) -> (r: Option<u64>)
        ensures
            r is Some <==> hash_input(bytes@) is Some,
            r matches Some(h) ==> Some(h as nat) == raw_payload_hash(bytes@),
    {
        if bytes.len() == 0 {
            return None;
        }
        let header_byte = bytes[0];
        let route_type = RouteType::from_header(header_byte);
        let payload_type = match PayloadType::from_header(header_byte) {
            Some(p) => p,
            None => return None,
        };
        let mut offset: usize = 1;
        if route_type.has_transport_codes() {
            offset = offset + 4;
        }
        if bytes.len() <= offset {
            return None;
        }
        let path_len = bytes[offset];
        let start = offset + 1 + path_len as usize;
        if start > bytes.len() {
            return None;
        }
        let mut input: Vec<u8> = Vec::new();
        input.push(payload_type_byte(payload_type));
        let is_trace = match payload_type {
            PayloadType::Trace => true,
            _ => false,
        };
        if is_trace {
            input.push(path_len);
        }
        let ghost prefix = input@;
        let mut i: usize = start;
        while i < bytes.len()
            invariant
                start <= i <= bytes@.len(),
                input@ == prefix + bytes@.subrange(start as int, i as int),
            decreases bytes@.len() - i,
        {
            input.push(bytes[i]);
            assert(bytes@.subrange(start as int, i + 1) =~= bytes@.subrange(start as int, i as int).push(
                bytes@[i as int],
            ));
            i = i + 1;
        }
        assert(bytes@.subrange(start as int, bytes@.len() as int) =~= bytes@.skip(start as int));
        assert(input@ =~= hash_input(bytes@)->0);
        let digest = sha256_digest(input.as_slice());
        Some(be_u64_prefix(digest.as_slice()))
    }

    /// Create a new packet with the given route type and payload; the header
    /// takes its payload type from the payload.
    pub fn new(route_type: RouteType, payload: PacketPayload) -> (p: Self)
        ensures
            p.header == new_header(route_type, payload),
            p.path@.len() == 0,
            p.payload == payload,
    {
        let payload_type = payload.payload_type();
        MeshCorePacket {
            header: PacketHeader {
                route_type,
                payload_type,
                version: PayloadVersion::V1,
                transport_codes: if route_type.has_transport_codes() {
                    Some(TransportCodes::default())
                } else {
                    None
                },
                path_len: 0,
            },
            path: Vec::new(),
            payload,
        }
    }

    /// Create an advertisement packet (flood route).
    pub fn advert(advert: AdvertPayload) -> (p: Self)
        ensures
            p.header == new_header(RouteType::Flood, PacketPayload::Advert(advert)),
            p.path@.len() == 0,
            p.payload == PacketPayload::Advert(advert),
    {
        Self::new(RouteType::Flood, PacketPayload::Advert(advert))
    }

    /// Create an ACK packet (flood route).
    pub fn ack(checksum: u32) -> (p: Self)
        ensures
            p.header == new_header(RouteType::Flood, p.payload),
            p.path@.len() == 0,
            p.payload matches PacketPayload::Ack(a) && a.checksum == checksum,
    {
        Self::new(RouteType::Flood, PacketPayload::Ack(AckPayload::new(checksum)))
    }

    /// Create a text message packet (direct route).
    pub fn text_message(dest_hash: u8, src_hash: u8, mac: u16, ciphertext: Vec<u8>) -> (p: Self)
        ensures
            p.header == new_header(RouteType::Direct, p.payload),
            p.path@.len() == 0,
            p.payload matches PacketPayload::TextMessage(t) && t.header.dest_hash == dest_hash
                && t.header.src_hash == src_hash && t.header.mac == mac && t.ciphertext
                == ciphertext,
    {
        Self::new(
            RouteType::Direct,
            PacketPayload::TextMessage(
                TextMessagePayload { header: EncryptedHeader::new(dest_hash, src_hash, mac), ciphertext },
            ),
        )
    }

    /// Create a group text message packet (flood route).
    pub fn group_text(channel_hash: u8, mac: u16, ciphertext: Vec<u8>) -> (p: Self)
        ensures
            p.header == new_header(RouteType::Flood, p.payload),
            p.path@.len() == 0,
            p.payload == PacketPayload::GroupText(GroupMessagePayload { channel_hash, mac, ciphertext }),
    {
        Self::new(RouteType::Flood, PacketPayload::GroupText(GroupMessagePayload { channel_hash, mac, ciphertext }))
    }

    /// Get the route type.
    pub fn route_type(&self) -> (r: RouteType)
        ensures
            r == self.header.route_type,
    {
        self.header.route_type
    }

    /// Get the payload type.
    pub fn payload_type(&self) -> (t: PayloadType)
        ensures
            t == self.header.payload_type,
    {
        self.header.payload_type
    }

    /// Check if this is a flood-routed packet.
    pub fn is_flood(&self) -> (b: bool)
        ensures
            b == route_is_flood(self.header.route_type),
    {
        self.header.route_type.is_flood()
    }

    /// Check if this is a direct-routed packet.
    pub fn is_direct(&self) -> (b: bool)
        ensures
            b == route_is_direct(self.header.route_type),
    {
        self.header.route_type.is_direct()
    }

    /// Get the path length.
    pub fn path_len(&self) -> (n: usize)
        ensures
            n == self.path@.len(),
    {
        self.path.len()
    }

    /// Get a human-readable representation of the packet.
    pub fn display(&self) -> (s: String)
        ensures
            s@ == packet_display(
                self.header.route_type,
                self.header.payload_type,
                self.header.version,
                self.path@.len(),
            ),
    {
        let mut s = String::new();
        s.append("Packet { route: ");
        s.append(self.header.route_type.display_name());
        s.append(", type: ");
        s.append(self.header.payload_type.display_name());
        s.append(", version: ");
        let v = match self.header.version {
            PayloadVersion::V1 => "V1",
            PayloadVersion::V2 => "V2",
            PayloadVersion::V3 => "V3",
            PayloadVersion::V4 => "V4",
        };
        s.append(v);
        s.append(", path_len: ");
        push_decimal(&mut s, self.path.len() as u64);
        s.append(" }");
        s
    }
}

// ----------------------------------------------------------------------------
// Legacy compatibility types
// ----------------------------------------------------------------------------

/// Legacy type alias for PublicKeyHash.
pub type PublicKeyHash = [u8; 6];

/// Legacy type alias for ChannelHash.
pub type ChannelHash = [u8; 16];

/// Legacy node capabilities (maps to AdvertFlags).
#[derive(Debug, Clone, Copy, PartialEq, Eq, Structural)]
pub struct NodeCapabilities {
    /// Node can act as a repeater.
    pub is_repeater: bool,
    /// Node is a room server.
    pub is_room_server: bool,
    /// Node supports GPS.
    pub has_gps: bool,
    /// Node is a client device.
    pub is_client: bool,
}

impl Default for NodeCapabilities {
    fn default() -> (c: Self)
        ensures
            !c.is_repeater && !c.is_room_server && !c.has_gps && !c.is_client,
    {
        NodeCapabilities { is_repeater: false, is_room_server: false, has_gps: false, is_client: false }
    }
}

impl NodeCapabilities {
    /// Create new capabilities with all flags set to false.
    pub fn none() -> (c: Self)
        ensures
            !c.is_repeater && !c.is_room_server && !c.has_gps && !c.is_client,
    {
        Self::default()
    }

    /// Create capabilities for a repeater node.
    pub fn repeater() -> (c: Self)
        ensures
            c.is_repeater && !c.is_room_server && !c.has_gps && !c.is_client,
    {
        NodeCapabilities { is_repeater: true, ..Default::default() }
    }

    /// Create capabilities for a client node.
    pub fn client() -> (c: Self)
        ensures
            !c.is_repeater && !c.is_room_server && !c.has_gps && c.is_client,
    {
        NodeCapabilities { is_client: true, ..Default::default() }
    }

    /// Convert to AdvertFlags: repeater, room server and client map to the
    /// node types, GPS to the location flag; nothing else is set.
    pub fn to_advert_flags(&self) -> (f: AdvertFlags)
        ensures
            f == (AdvertFlags {
                is_repeater: self.is_repeater,
                is_room_server: self.is_room_server,
                is_chat_node: self.is_client,
                has_location: self.has_gps,
                ..no_flags()
            }),
    {
        AdvertFlags {
            is_repeater: self.is_repeater,
            is_room_server: self.is_room_server,
            is_chat_node: self.is_client,
            has_location: self.has_gps,
            ..AdvertFlags::default()
        }
    }
}

/// Legacy destination type.
#[derive(Debug, Clone, PartialEq, Eq)]
pub enum Destination {
    /// Flood to all nodes.
    Flood,
    /// Direct to a specific node.
    Direct(PublicKeyHash),
    /// Send to a channel.
    Channel(ChannelHash),
}

impl Default for Destination {
    fn default() -> (d: Self)
        ensures
            d == Destination::Flood,
    {
        Destination::Flood
    }
}

/// Encryption key (32 bytes).
#[derive(Clone)]
pub struct EncryptionKey(pub [u8; 32]);

impl EncryptionKey {
    /// Create from bytes.
    pub fn from_bytes(bytes: [u8; 32]) -> (k: Self)
        ensures
            k.0 == bytes,
    {
        EncryptionKey(bytes)
    }

    /// Get the key bytes.
    pub fn as_bytes(&self) -> (b: &[u8; 32])
        ensures
            *b == self.0,
    {
        &self.0
    }
}

/// Builder for creating packets (legacy API).
pub struct PacketBuilder;

impl PacketBuilder {
    /// Create an advertisement packet with a zero key, zero timestamp and zero
    /// signature; the capabilities are not used.
    pub fn advert(node_name: &str, _capabilities: NodeCapabilities) -> (p: MeshCorePacket)
        ensures
            p.header == new_header(RouteType::Flood, p.payload),
            p.path@.len() == 0,
            p.payload matches PacketPayload::Advert(a) && a.public_key@ == Seq::new(32, |i| 0u8)
                && a.timestamp == 0 && a.signature@ == Seq::new(64, |i| 0u8) && a.flags == (
            AdvertFlags { has_name: true, ..no_flags() }) && (a.name matches Some(n) && n@
                == node_name@),
    {
        let advert = AdvertPayload::new([0u8; 32], 0, [0u8; 64], node_name);
        assert(advert.public_key@ =~= Seq::new(32, |i| 0u8));
        assert(advert.signature@ =~= Seq::new(64, |i| 0u8));
        MeshCorePacket::advert(advert)
    }

    /// Create a raw packet with custom payload (flood route).
    pub fn raw(data: Vec<u8>) -> (p: MeshCorePacket)
        ensures
            p.header == new_header(RouteType::Flood, PacketPayload::Raw(data)),
            p.path@.len() == 0,
            p.payload == PacketPayload::Raw(data),
    {
        MeshCorePacket::new(RouteType::Flood, PacketPayload::Raw(data))
    }
}

} // verus!
