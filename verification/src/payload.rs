//! Payload types carried after the packet header and path.
use vstd::prelude::*;
use crate::header::{payload_code, PayloadType};

verus! {

// ----------------------------------------------------------------------------
// Advertisement
// ----------------------------------------------------------------------------

/// Appdata flags for advertisement payloads.
#[derive(Debug, Clone, Copy, PartialEq, Eq, Structural)]
pub struct AdvertFlags {
    /// Node is a chat node.
    pub is_chat_node: bool,
    /// Node is a repeater.
    pub is_repeater: bool,
    /// Node is a room server.
    pub is_room_server: bool,
    /// Node is a sensor.
    pub is_sensor: bool,
    /// Appdata contains lat/long information.
    pub has_location: bool,
    /// Reserved for future use.
    pub has_feature1: bool,
    /// Reserved for future use.
    pub has_feature2: bool,
    /// Appdata contains a node name.
    pub has_name: bool,
}

/// Flags with nothing set.
pub open spec fn no_flags() -> AdvertFlags {
    AdvertFlags {
        is_chat_node: false,
        is_repeater: false,
        is_room_server: false,
        is_sensor: false,
        has_location: false,
        has_feature1: false,
        has_feature2: false,
        has_name: false,
    }
}

/// The flags byte: the node type in the lower nibble (chat 1, repeater 2,
/// room server 3, sensor 4, or-ed together when several are set) and the
/// optional-field bits 0x10, 0x20, 0x40, 0x80 in the upper nibble.
pub open spec fn flags_byte(f: AdvertFlags) -> u8 {
    (if f.is_chat_node { 0x01u8 } else { 0u8 }) | (if f.is_repeater { 0x02u8 } else { 0u8 }) | (
    if f.is_room_server { 0x03u8 } else { 0u8 }) | (if f.is_sensor { 0x04u8 } else { 0u8 }) | (
    if f.has_location { 0x10u8 } else { 0u8 }) | (if f.has_feature1 { 0x20u8 } else { 0u8 }) | (
    if f.has_feature2 { 0x40u8 } else { 0u8 }) | (if f.has_name { 0x80u8 } else { 0u8 })
}

/// The flags named by a flags byte.
pub open spec fn flags_of_byte(b: u8) -> AdvertFlags {
    AdvertFlags {
        is_chat_node: b % 16 == 1,
        is_repeater: b % 16 == 2,
        is_room_server: b % 16 == 3,
        is_sensor: b % 16 == 4,
        has_location: (b / 16) % 2 == 1,
        has_feature1: (b / 32) % 2 == 1,
        has_feature2: (b / 64) % 2 == 1,
        has_name: b >= 128,
    }
}

/// At most one node type is set.
pub open spec fn single_node_type(f: AdvertFlags) -> bool {
    (if f.is_chat_node { 1int } else { 0 }) + (if f.is_repeater { 1int } else { 0 }) + (
    if f.is_room_server { 1int } else { 0 }) + (if f.is_sensor { 1int } else { 0 }) <= 1
}

impl Default for AdvertFlags {
    fn default() -> (f: Self)
        ensures
            f == no_flags(),
    {
        AdvertFlags {
            is_chat_node: false,
            is_repeater: false,
            is_room_server: false,
            is_sensor: false,
            has_location: false,
            has_feature1: false,
            has_feature2: false,
            has_name: false,
        }
    }
}

impl AdvertFlags {
    /// Encode to a byte.
    pub fn to_byte(&self) -> (b: u8)
        ensures
            b == flags_byte(*self),
    {
        (if self.is_chat_node { 0x01u8 } else { 0u8 }) | (if self.is_repeater { 0x02u8 } else { 0u8 })
            | (if self.is_room_server { 0x03u8 } else { 0u8 }) | (if self.is_sensor { 0x04u8 } else { 0u8 })
            | (if self.has_location { 0x10u8 } else { 0u8 }) | (if self.has_feature1 { 0x20u8 } else { 0u8 })
            | (if self.has_feature2 { 0x40u8 } else { 0u8 }) | (if self.has_name { 0x80u8 } else { 0u8 })
    }

    /// Decode from a byte.
    pub fn from_byte(byte: u8) -> (f: Self)
        ensures
            f == flags_of_byte(byte),
    {
        let node_type = byte & 0x0F;
        assert(byte & 0x0F == byte % 16) by (bit_vector);
        assert((byte & 0x10 != 0) == ((byte / 16) % 2 == 1)) by (bit_vector);
        assert((byte & 0x20 != 0) == ((byte / 32) % 2 == 1)) by (bit_vector);
        assert((byte & 0x40 != 0) == ((byte / 64) % 2 == 1)) by (bit_vector);
        assert((byte & 0x80 != 0) == (byte >= 128)) by (bit_vector);
        AdvertFlags {
            is_chat_node: node_type == 0x01,
            is_repeater: node_type == 0x02,
            is_room_server: node_type == 0x03,
            is_sensor: node_type == 0x04,
            has_location: byte & 0x10 != 0,
            has_feature1: byte & 0x20 != 0,
            has_feature2: byte & 0x40 != 0,
            has_name: byte & 0x80 != 0,
        }
    }

    /// Create flags for a repeater node.
    pub fn repeater() -> (f: Self)
        ensures
            f == (AdvertFlags { is_repeater: true, has_name: true, ..no_flags() }),
    {
        AdvertFlags { is_repeater: true, has_name: true, ..AdvertFlags::default() }
    }

    /// Create flags for a chat node.
    pub fn chat_node() -> (f: Self)
        ensures
            f == (AdvertFlags { is_chat_node: true, has_name: true, ..no_flags() }),
    {
        AdvertFlags { is_chat_node: true, has_name: true, ..AdvertFlags::default() }
    }
}

/// Flags with at most one node type set survive a trip through the flags byte.
/// (With two node types set the lower nibble merges them, e.g. chat node and
/// repeater encode as a room server.)
pub proof fn lemma_flags_roundtrip(f: AdvertFlags)
    requires
        single_node_type(f),
    ensures
        flags_of_byte(flags_byte(f)) == f,
{
    let c = f.is_chat_node;
    let r = f.is_repeater;
    let s = f.is_room_server;
    let n = f.is_sensor;
    let l = f.has_location;
    let f1 = f.has_feature1;
    let f2 = f.has_feature2;
    let nm = f.has_name;
    let b = flags_byte(f);
    assert(b == (if c { 0x01u8 } else { 0u8 }) | (if r { 0x02u8 } else { 0u8 }) | (if s { 0x03u8 } else { 0u8 })
        | (if n { 0x04u8 } else { 0u8 }) | (if l { 0x10u8 } else { 0u8 }) | (if f1 { 0x20u8 } else { 0u8 })
        | (if f2 { 0x40u8 } else { 0u8 }) | (if nm { 0x80u8 } else { 0u8 }));
    assert(
        (!(c && r) && !(c && s) && !(c && n) && !(r && s) && !(r && n) && !(s && n)) &&
        b == (if c { 0x01u8 } else { 0u8 }) | (if r { 0x02u8 } else { 0u8 }) | (if s { 0x03u8 } else { 0u8 })
        | (if n { 0x04u8 } else { 0u8 }) | (if l { 0x10u8 } else { 0u8 }) | (if f1 { 0x20u8 } else { 0u8 })
        | (if f2 { 0x40u8 } else { 0u8 }) | (if nm { 0x80u8 } else { 0u8 }) ==> {
            &&& (b % 16 == 1) == c
            &&& (b % 16 == 2) == r
            &&& (b % 16 == 3) == s
            &&& (b % 16 == 4) == n
            &&& ((b / 16) % 2 == 1) == l
            &&& ((b / 32) % 2 == 1) == f1
            &&& ((b / 64) % 2 == 1) == f2
            &&& (b >= 128) == nm
        }) by (bit_vector);
}

/// A flags byte whose node type nibble names at most one type (0 to 4)
/// survives a trip through the flags.
pub proof fn lemma_flags_byte_roundtrip(b: u8)
    requires
        b % 16 <= 4,
    ensures
        flags_byte(flags_of_byte(b)) == b,
{
    let f = flags_of_byte(b);
    assert(b % 16 <= 4 ==> (if b % 16 == 1 { 0x01u8 } else { 0u8 }) | (if b % 16 == 2 { 0x02u8 } else { 0u8 })
        | (if b % 16 == 3 { 0x03u8 } else { 0u8 }) | (if b % 16 == 4 { 0x04u8 } else { 0u8 })
        | (if (b / 16) % 2 == 1 { 0x10u8 } else { 0u8 }) | (if (b / 32) % 2 == 1 { 0x20u8 } else { 0u8 })
        | (if (b / 64) % 2 == 1 { 0x40u8 } else { 0u8 }) | (if b >= 128 { 0x80u8 } else { 0u8 }) == b) by (bit_vector);
}

/// Advertisement payload (PAYLOAD_TYPE_ADVERT).
#[derive(Debug, Clone)]
pub struct AdvertPayload {
    /// Ed25519 public key of the node (32 bytes).
    pub public_key: [u8; 32],
    /// Unix timestamp of advertisement.
    pub timestamp: u32,
    /// Ed25519 signature of public key, timestamp, and appdata (64 bytes).
    pub signature: [u8; 64],
    /// Appdata flags.
    pub flags: AdvertFlags,
    /// Latitude (decimal * 1,000,000) - present if has_location.
    pub latitude: Option<i32>,
    /// Longitude (decimal * 1,000,000) - present if has_location.
    pub longitude: Option<i32>,
    /// Feature 1 (reserved) - present if has_feature1.
    pub feature1: Option<u16>,
    /// Feature 2 (reserved) - present if has_feature2.
    pub feature2: Option<u16>,
    /// Node name - present if has_name.
    pub name: Option<String>,
}

impl AdvertPayload {
    /// Create a new advertisement payload carrying only a name.
    pub fn new(public_key: [u8; 32], timestamp: u32, signature: [u8; 64], name: &str) -> (a: Self)
        ensures
            a.public_key == public_key,
            a.timestamp == timestamp,
            a.signature == signature,
            a.flags == (AdvertFlags { has_name: true, ..no_flags() }),
            a.latitude is None && a.longitude is None,
            a.feature1 is None && a.feature2 is None,
            a.name matches Some(n) && n@ == name@,
    {
        AdvertPayload {
            public_key,
            timestamp,
            signature,
            flags: AdvertFlags { has_name: true, ..AdvertFlags::default() },
            latitude: None,
            longitude: None,
            feature1: None,
            feature2: None,
            name: Some(name.to_owned()),
        }
    }

    /// Create a repeater advertisement.
    pub fn repeater(public_key: [u8; 32], timestamp: u32, signature: [u8; 64], name: &str) -> (a: Self)
        ensures
            a.public_key == public_key,
            a.timestamp == timestamp,
            a.signature == signature,
            a.flags == (AdvertFlags { is_repeater: true, has_name: true, ..no_flags() }),
            a.latitude is None && a.longitude is None,
            a.feature1 is None && a.feature2 is None,
            a.name matches Some(n) && n@ == name@,
    {
        AdvertPayload {
            public_key,
            timestamp,
            signature,
            flags: AdvertFlags::repeater(),
            latitude: None,
            longitude: None,
            feature1: None,
            feature2: None,
            name: Some(name.to_owned()),
        }
    }

    /// Set the location, in millionths of a degree.
    pub fn with_fixed_location(self, latitude: i32, longitude: i32) -> (a: Self)
        ensures
            a == (AdvertPayload {
                flags: AdvertFlags { has_location: true, ..self.flags },
                latitude: Some(latitude),
                longitude: Some(longitude),
                ..self
            }),
    {
        let mut a = self;
        a.flags.has_location = true;
        a.latitude = Some(latitude);
        a.longitude = Some(longitude);
        a
    }

    /// Get the public key hash (first byte).
    pub fn public_key_hash(&self) -> (h: u8)
        ensures
            h == self.public_key@[0],
    {
        self.public_key[0]
    }
}

// ----------------------------------------------------------------------------
// Acknowledgement and encrypted payloads
// ----------------------------------------------------------------------------

/// Acknowledgement payload (PAYLOAD_TYPE_ACK).
#[derive(Debug, Clone)]
pub struct AckPayload {
    /// CRC checksum of message timestamp, text, and sender pubkey (4 bytes).
    pub checksum: u32,
}

impl AckPayload {
    /// Create a new ACK payload.
    pub fn new(checksum: u32) -> (a: Self)
        ensures
            a.checksum == checksum,
    {
        AckPayload { checksum }
    }
}

/// Common header for encrypted payloads (Request, Response, TextMessage, Path).
#[derive(Debug, Clone)]
pub struct EncryptedHeader {
    /// First byte of destination node public key.
    pub dest_hash: u8,
    /// First byte of source node public key.
    pub src_hash: u8,
    /// MAC for encrypted data (2 bytes in V1).
    pub mac: u16,
}

impl EncryptedHeader {
    /// Create a new encrypted header.
    pub fn new(dest_hash: u8, src_hash: u8, mac: u16) -> (h: Self)
        ensures
            h.dest_hash == dest_hash && h.src_hash == src_hash && h.mac == mac,
    {
        EncryptedHeader { dest_hash, src_hash, mac }
    }
}

/// Returned path payload (PAYLOAD_TYPE_PATH).
#[derive(Debug, Clone)]
pub struct PathPayload {
    /// Encrypted header (dest/src hashes + MAC).
    pub header: EncryptedHeader,
    /// Ciphertext containing the path data.
    pub ciphertext: Vec<u8>,
}

/// Decrypted path data.
#[derive(Debug, Clone)]
pub struct PathData {
    /// Path length.
    pub path_len: u8,
    /// List of node hashes (one byte each).
    pub path: Vec<u8>,
    /// Extra bundled payload type.
    pub extra_type: PayloadType,
    /// Extra bundled payload content.
    pub extra: Vec<u8>,
}

/// Request payload (PAYLOAD_TYPE_REQ).
#[derive(Debug, Clone)]
pub struct RequestPayload {
    /// Encrypted header (dest/src hashes + MAC).
    pub header: EncryptedHeader,
    /// Ciphertext containing the request data.
    pub ciphertext: Vec<u8>,
}

/// Request type values.
#[derive(Debug, Clone, Copy, PartialEq, Eq, Structural)]
pub enum RequestType {
    /// Get stats of repeater or room server.
    GetStats,
    /// Keepalive (deprecated).
    Keepalive,
    /// Get telemetry data.
    GetTelemetry,
    /// Get min/max/avg data for sensors.
    GetMinMaxAvg,
    /// Get node's approved access list.
    GetAccessList,
}

/// The byte value of a request type.
pub open spec fn request_code(r: RequestType) -> u8 {
    match r {
        RequestType::GetStats => 0x01,
        RequestType::Keepalive => 0x02,
        RequestType::GetTelemetry => 0x03,
        RequestType::GetMinMaxAvg => 0x04,
        RequestType::GetAccessList => 0x05,
    }
}

impl RequestType {
    /// Create from byte value; `None` outside 0x01-0x05.
    pub fn from_u8(value: u8) -> (r: Option<Self>)
        ensures
            r is Some <==> 1 <= value <= 5,
            r matches Some(t) ==> request_code(t) == value,
    {
        match value {
            0x01 => Some(RequestType::GetStats),
            0x02 => Some(RequestType::Keepalive),
            0x03 => Some(RequestType::GetTelemetry),
            0x04 => Some(RequestType::GetMinMaxAvg),
            0x05 => Some(RequestType::GetAccessList),
            _ => None,
        }
    }
}

/// Decrypted request data.
#[derive(Debug, Clone)]
pub struct RequestData {
    /// Send time (unix timestamp).
    pub timestamp: u32,
    /// Request type.
    pub request_type: RequestType,
    /// Request-specific data.
    pub data: Vec<u8>,
}

/// Response payload (PAYLOAD_TYPE_RESPONSE).
#[derive(Debug, Clone)]
pub struct ResponsePayload {
    /// Encrypted header (dest/src hashes + MAC).
    pub header: EncryptedHeader,
    /// Ciphertext containing the response data.
    pub ciphertext: Vec<u8>,
}

/// Decrypted response data.
#[derive(Debug, Clone)]
pub struct ResponseData {
    /// Tag (4 bytes).
    pub tag: u32,
    /// Response content.
    pub content: Vec<u8>,
}

/// Text message payload (PAYLOAD_TYPE_TXT_MSG).
#[derive(Debug, Clone)]
pub struct TextMessagePayload {
    /// Encrypted header (dest/src hashes + MAC).
    pub header: EncryptedHeader,
    /// Ciphertext containing the message data.
    pub ciphertext: Vec<u8>,
}

/// Text type values (upper 6 bits of txt_type byte).
#[derive(Debug, Clone, Copy, PartialEq, Eq, Structural)]
pub enum TextType {
    /// Plain text message.
    Plain,
    /// CLI command.
    Command,
    /// Signed plain text message.
    Signed,
}

/// The code of a text type (stored in the upper six bits).
pub open spec fn text_type_code(t: TextType) -> u8 {
    match t {
        TextType::Plain => 0,
        TextType::Command => 1,
        TextType::Signed => 2,
    }
}

/// The text type named by a txt_type byte; unknown codes read as plain.
pub open spec fn text_type_of_byte(b: u8) -> TextType {
    let c = b / 4;
    if c == 1 {
        TextType::Command
    } else if c == 2 {
        TextType::Signed
    } else {
        TextType::Plain
    }
}

impl Default for TextType {
    fn default() -> (t: Self)
        ensures
            t == TextType::Plain,
    {
        TextType::Plain
    }
}

impl TextType {
    /// Create from the txt_type byte (upper 6 bits); unknown values are plain.
    pub fn from_byte(byte: u8) -> (t: Self)
        ensures
            t == text_type_of_byte(byte),
    {
        let c = byte >> 2;
        assert(byte >> 2 == byte / 4) by (bit_vector);
        match c {
            0x00 => TextType::Plain,
            0x01 => TextType::Command,
            0x02 => TextType::Signed,
            _ => TextType::Plain,
        }
    }

    /// Convert to a txt_type byte: the type in the upper six bits and the
    /// attempt number (0-3) in the lower two.
    pub fn to_byte(self, attempt: u8) -> (b: u8)
        ensures
            b == text_type_code(self) * 4 + attempt % 4,
    {
        let c: u8 = match self {
            TextType::Plain => 0,
            TextType::Command => 1,
            TextType::Signed => 2,
        };
        assert(c <= 2 ==> (c << 2) | (attempt & 0x03) == c * 4 + attempt % 4) by (bit_vector);
        (c << 2) | (attempt & 0x03)
    }
}

/// A txt_type byte keeps both the text type and the attempt number.
pub proof fn lemma_text_type_roundtrip(t: TextType, attempt: u8)
    ensures
        text_type_of_byte((text_type_code(t) * 4 + attempt % 4) as u8) == t,
        ((text_type_code(t) * 4 + attempt % 4) as u8) % 4 == attempt % 4,
{
    let c = text_type_code(t);
    assert(c <= 2 ==> ((c * 4 + attempt % 4) as u8) / 4 == c && ((c * 4 + attempt % 4) as u8) % 4
        == attempt % 4) by (bit_vector);
}

/// Decrypted text message data.
#[derive(Debug, Clone)]
pub struct TextMessageData {
    /// Send time (unix timestamp).
    pub timestamp: u32,
    /// Text type (plain, command, signed).
    pub txt_type: TextType,
    /// Attempt number (0-3).
    pub attempt: u8,
    /// Message content.
    pub message: String,
    /// Sender pubkey prefix (4 bytes, only for signed messages).
    pub sender_prefix: Option<[u8; 4]>,
}

/// Anonymous request payload (PAYLOAD_TYPE_ANON_REQ).
#[derive(Debug, Clone)]
pub struct AnonRequestPayload {
    /// First byte of destination node public key.
    pub dest_hash: u8,
    /// Sender's Ed25519 public key (32 bytes).
    pub public_key: [u8; 32],
    /// MAC for encrypted data (2 bytes).
    pub mac: u16,
    /// Ciphertext.
    pub ciphertext: Vec<u8>,
}

/// Decrypted anonymous request data (room server login).
#[derive(Debug, Clone)]
pub struct RoomServerLoginData {
    /// Sender time (unix timestamp).
    pub timestamp: u32,
    /// Sync messages since timestamp.
    pub sync_timestamp: u32,
    /// Password for room.
    pub password: String,
}

/// Decrypted anonymous request data (repeater/sensor login).
#[derive(Debug, Clone)]
pub struct RepeaterLoginData {
    /// Sender time (unix timestamp).
    pub timestamp: u32,
    /// Password.
    pub password: String,
}

/// Group text/datagram payload (PAYLOAD_TYPE_GRP_TXT, PAYLOAD_TYPE_GRP_DATA).
#[derive(Debug, Clone)]
pub struct GroupMessagePayload {
    /// First byte of SHA256 of channel's shared key.
    pub channel_hash: u8,
    /// MAC for encrypted data (2 bytes).
    pub mac: u16,
    /// Ciphertext.
    pub ciphertext: Vec<u8>,
}

// ----------------------------------------------------------------------------
// Control data
// ----------------------------------------------------------------------------

/// Control sub-type (upper 4 bits of flags).
#[derive(Debug, Clone, Copy, PartialEq, Eq, Structural)]
pub enum ControlSubType {
    /// Discovery request.
    DiscoverRequest,
    /// Discovery response.
    DiscoverResponse,
    /// Other/unknown.
    Other(u8),
}

/// The sub-type named by the upper four bits of a control flags byte.
pub open spec fn control_of_flags(flags: u8) -> ControlSubType {
    let v = flags / 16;
    if v == 8 {
        ControlSubType::DiscoverRequest
    } else if v == 9 {
        ControlSubType::DiscoverResponse
    } else {
        ControlSubType::Other(v)
    }
}

/// The flags byte (upper four bits only) of a sub-type; `Other(v)` keeps the
/// low four bits of `v`.
pub open spec fn control_flags(c: ControlSubType) -> u8 {
    match c {
        ControlSubType::DiscoverRequest => 0x80,
        ControlSubType::DiscoverResponse => 0x90,
        ControlSubType::Other(v) => ((v % 16) * 16) as u8,
    }
}

impl ControlSubType {
    /// Create from flags byte.
    pub fn from_flags(flags: u8) -> (c: Self)
        ensures
            c == control_of_flags(flags),
    {
        let v = flags >> 4;
        assert(flags >> 4 == flags / 16) by (bit_vector);
        match v {
            0x08 => ControlSubType::DiscoverRequest,
            0x09 => ControlSubType::DiscoverResponse,
            v => ControlSubType::Other(v),
        }
    }

    /// Convert to flags byte (upper 4 bits only).
    pub fn to_flags(self) -> (f: u8)
        ensures
            f == control_flags(self),
    {
        match self {
            ControlSubType::DiscoverRequest => 0x80,
            ControlSubType::DiscoverResponse => 0x90,
            ControlSubType::Other(v) => {
                assert(v << 4u8 == ((v % 16) * 16) as u8) by (bit_vector);
                v << 4u8
            },
        }
    }
}

/// Reading a flags byte and writing it back keeps its upper four bits; a
/// sub-type survives the opposite trip unless it is `Other` with a value of 8
/// or 9 (read back as the discovery sub-types) or of 16 or more.
pub proof fn lemma_control_roundtrip(flags: u8, c: ControlSubType)
    ensures
        control_flags(control_of_flags(flags)) == (flags / 16) * 16,
        (c matches ControlSubType::Other(v) ==> v < 16 && v != 8 && v != 9)
            ==> control_of_flags(control_flags(c)) == c,
{
    assert(((flags / 16) % 16) * 16 == (flags / 16) * 16) by (bit_vector);
    if let ControlSubType::Other(v) = c {
        assert(v < 16 ==> (((v % 16) * 16) as u8) / 16 == v) by (bit_vector);
    }
}

/// Control data payload (PAYLOAD_TYPE_CONTROL).
#[derive(Debug, Clone)]
pub struct ControlPayload {
    /// Sub-type and flags.
    pub sub_type: ControlSubType,
    /// Lower 4 bits of flags.
    pub flags_lower: u8,
    /// Payload data.
    pub data: Vec<u8>,
}

/// Discovery request data.
#[derive(Debug, Clone)]
pub struct DiscoverRequestData {
    /// Prefix only flag (lowest bit).
    pub prefix_only: bool,
    /// Type filter (bit for each ADV_TYPE_*).
    pub type_filter: u8,
    /// Randomly generated tag.
    pub tag: u32,
    /// Optional epoch timestamp.
    pub since: Option<u32>,
}

/// Discovery response data.
#[derive(Debug, Clone)]
pub struct DiscoverResponseData {
    /// Node type (lower 4 bits of flags).
    pub node_type: u8,
    /// SNR * 4 (signed).
    pub snr: i8,
    /// Reflected tag from request.
    pub tag: u32,
    /// Node's ID (8 or 32 bytes).
    pub pubkey: Vec<u8>,
}

/// Trace payload (PAYLOAD_TYPE_TRACE).
#[derive(Debug, Clone)]
pub struct TracePayload {
    /// Raw trace data.
    pub data: Vec<u8>,
}

/// Multipart payload (PAYLOAD_TYPE_MULTIPART).
#[derive(Debug, Clone)]
pub struct MultipartPayload {
    /// Raw multipart data.
    pub data: Vec<u8>,
}

// ----------------------------------------------------------------------------
// Payload enum
// ----------------------------------------------------------------------------

/// Packet payload variants.
#[derive(Debug, Clone)]
pub enum PacketPayload {
    /// Node advertisement.
    Advert(AdvertPayload),
    /// Acknowledgment.
    Ack(AckPayload),
    /// Returned path.
    Path(PathPayload),
    /// Request.
    Request(RequestPayload),
    /// Response.
    Response(ResponsePayload),
    /// Text message.
    TextMessage(TextMessagePayload),
    /// Anonymous request.
    AnonRequest(AnonRequestPayload),
    /// Group text message.
    GroupText(GroupMessagePayload),
    /// Group datagram.
    GroupData(GroupMessagePayload),
    /// Trace.
    Trace(TracePayload),
    /// Multipart.
    Multipart(MultipartPayload),
    /// Control data.
    Control(ControlPayload),
    /// Custom/raw bytes.
    Raw(Vec<u8>),
}

/// The payload type that a payload variant carries.
pub open spec fn payload_kind(p: PacketPayload) -> PayloadType {
    match p {
        PacketPayload::Advert(_) => PayloadType::Advert,
        PacketPayload::Ack(_) => PayloadType::Ack,
        PacketPayload::Path(_) => PayloadType::Path,
        PacketPayload::Request(_) => PayloadType::Request,
        PacketPayload::Response(_) => PayloadType::Response,
        PacketPayload::TextMessage(_) => PayloadType::TextMessage,
        PacketPayload::AnonRequest(_) => PayloadType::AnonRequest,
        PacketPayload::GroupText(_) => PayloadType::GroupText,
        PacketPayload::GroupData(_) => PayloadType::GroupData,
        PacketPayload::Trace(_) => PayloadType::Trace,
        PacketPayload::Multipart(_) => PayloadType::Multipart,
        PacketPayload::Control(_) => PayloadType::Control,
        PacketPayload::Raw(_) => PayloadType::RawCustom,
    }
}

impl Default for PacketPayload {
    fn default() -> (p: Self)
        ensures
            p matches PacketPayload::Raw(v) && v@.len() == 0,
    {
        PacketPayload::Raw(Vec::new())
    }
}

impl PacketPayload {
    /// Get the payload type for this payload.
    pub fn payload_type(&self) -> (t: PayloadType)
        ensures
            t == payload_kind(*self),
    {
        match self {
            PacketPayload::Advert(_) => PayloadType::Advert,
            PacketPayload::Ack(_) => PayloadType::Ack,
            PacketPayload::Path(_) => PayloadType::Path,
            PacketPayload::Request(_) => PayloadType::Request,
            PacketPayload::Response(_) => PayloadType::Response,
            PacketPayload::TextMessage(_) => PayloadType::TextMessage,
            PacketPayload::AnonRequest(_) => PayloadType::AnonRequest,
            PacketPayload::GroupText(_) => PayloadType::GroupText,
            PacketPayload::GroupData(_) => PayloadType::GroupData,
            PacketPayload::Trace(_) => PayloadType::Trace,
            PacketPayload::Multipart(_) => PayloadType::Multipart,
            PacketPayload::Control(_) => PayloadType::Control,
            PacketPayload::Raw(_) => PayloadType::RawCustom,
        }
    }
}

/// Every payload variant carries a payload type whose code is a valid
/// (non-reserved) header code.
pub proof fn lemma_payload_kind_code(p: PacketPayload)
    ensures
        crate::header::payload_type_of_code(payload_code(payload_kind(p))) == Some(payload_kind(p)),
{
}

} // verus!
