//! Packet header types: route type, payload type, payload version and
//! transport codes, and the one-byte header that carries the first three.
//!
//! Header byte layout: route type in bits 0-1, payload type in bits 2-5,
//! payload version in bits 6-7.
use vstd::prelude::*;

verus! {

/// Errors raised while interpreting packet bytes.
#[derive(Debug, Clone, Copy, PartialEq, Eq, Structural)]
pub enum PacketError {
    /// The payload type field (bits 2-5 of the header) holds a reserved value.
    InvalidPacketType(u8),
}

// ----------------------------------------------------------------------------
// Route type
// ----------------------------------------------------------------------------

/// Route type (bits 0-1 of header).
#[derive(Debug, Clone, Copy, PartialEq, Eq, Structural)]
pub enum RouteType {
    /// Flood routing mode with transport codes.
    TransportFlood,
    /// Flood routing mode (builds up path).
    Flood,
    /// Direct route (path is supplied).
    Direct,
    /// Direct route with transport codes.
    TransportDirect,
}

/// The two-bit code of a route type.
pub open spec fn route_code(r: RouteType) -> u8 {
    match r {
        RouteType::TransportFlood => 0,
        RouteType::Flood => 1,
        RouteType::Direct => 2,
        RouteType::TransportDirect => 3,
    }
}

/// The route type named by bits 0-1 of a header byte.
pub open spec fn route_from_bits(header: u8) -> RouteType {
    let b = header % 4;
    if b == 0 {
        RouteType::TransportFlood
    } else if b == 1 {
        RouteType::Flood
    } else if b == 2 {
        RouteType::Direct
    } else {
        RouteType::TransportDirect
    }
}

/// Whether a route type carries transport codes.
pub open spec fn route_has_transport(r: RouteType) -> bool {
    r == RouteType::TransportFlood || r == RouteType::TransportDirect
}

/// Whether a route type floods.
pub open spec fn route_is_flood(r: RouteType) -> bool {
    r == RouteType::Flood || r == RouteType::TransportFlood
}

/// Whether a route type follows a supplied path.
pub open spec fn route_is_direct(r: RouteType) -> bool {
    r == RouteType::Direct || r == RouteType::TransportDirect
}

/// Lower-case metric label of a route type.
pub open spec fn route_label(r: RouteType) -> Seq<char> {
    match r {
        RouteType::TransportFlood => "transport_flood"@,
        RouteType::Flood => "flood"@,
        RouteType::Direct => "direct"@,
        RouteType::TransportDirect => "transport_direct"@,
    }
}

/// Upper-case display name of a route type.
pub open spec fn route_name(r: RouteType) -> Seq<char> {
    match r {
        RouteType::TransportFlood => "TRANSPORT_FLOOD"@,
        RouteType::Flood => "FLOOD"@,
        RouteType::Direct => "DIRECT"@,
        RouteType::TransportDirect => "TRANSPORT_DIRECT"@,
    }
}

impl RouteType {
    /// Create from the raw header byte (extracts bits 0-1).
    pub fn from_header(header: u8) -> (r: Self)
        ensures
            r == route_from_bits(header),
            route_code(r) == header % 4,
    {
        let b = header & 0x03;
        assert(header & 0x03 == header % 4) by (bit_vector);
        if b == 0 {
            RouteType::TransportFlood
        } else if b == 1 {
            RouteType::Flood
        } else if b == 2 {
            RouteType::Direct
        } else {
            RouteType::TransportDirect
        }
    }

    /// Convert to bits for header (bits 0-1).
    pub fn to_bits(self) -> (b: u8)
        ensures
            b == route_code(self),
    {
        match self {
            RouteType::TransportFlood => 0,
            RouteType::Flood => 1,
            RouteType::Direct => 2,
            RouteType::TransportDirect => 3,
        }
    }

    /// Returns true if this route type has transport codes.
    pub fn has_transport_codes(self) -> (b: bool)
        ensures
            b == route_has_transport(self),
    {
        match self {
            RouteType::TransportFlood | RouteType::TransportDirect => true,
            _ => false,
        }
    }

    /// Returns true if this is a flood route.
    pub fn is_flood(self) -> (b: bool)
        ensures
            b == route_is_flood(self),
    {
        match self {
            RouteType::Flood | RouteType::TransportFlood => true,
            _ => false,
        }
    }

    /// Returns true if this is a direct route.
    pub fn is_direct(self) -> (b: bool)
        ensures
            b == route_is_direct(self),
    {
        match self {
            RouteType::Direct | RouteType::TransportDirect => true,
            _ => false,
        }
    }

    /// Returns a lowercase label string suitable for use as a metric label value.
    pub fn as_label(&self) -> (s: &'static str)
        ensures
            s@ == route_label(*self),
    {
        match self {
            RouteType::TransportFlood => "transport_flood",
            RouteType::Flood => "flood",
            RouteType::Direct => "direct",
            RouteType::TransportDirect => "transport_direct",
        }
    }

    /// Upper-case name used when displaying a packet.
    pub fn display_name(&self) -> (s: &'static str)
        ensures
            s@ == route_name(*self),
    {
        match self {
            RouteType::TransportFlood => "TRANSPORT_FLOOD",
            RouteType::Flood => "FLOOD",
            RouteType::Direct => "DIRECT",
            RouteType::TransportDirect => "TRANSPORT_DIRECT",
        }
    }
}

/// Encoding a route type into header bits and decoding it back gives the same
/// route type, and every route type is exactly one of flood or direct.
pub proof fn lemma_route_roundtrip(r: RouteType)
    ensures
        route_from_bits(route_code(r)) == r,
        route_is_flood(r) != route_is_direct(r),
{
}

// ----------------------------------------------------------------------------
// Payload type
// ----------------------------------------------------------------------------

/// Payload type (bits 2-5 of header).
#[derive(Debug, Clone, Copy, PartialEq, Eq, Structural)]
pub enum PayloadType {
    /// Request (destination/source hashes + MAC).
    Request,
    /// Response to REQ or ANON_REQ.
    Response,
    /// Plain text message.
    TextMessage,
    /// Acknowledgment.
    Ack,
    /// Node advertisement.
    Advert,
    /// Group text message (unverified).
    GroupText,
    /// Group datagram (unverified).
    GroupData,
    /// Anonymous request.
    AnonRequest,
    /// Returned path.
    Path,
    /// Trace a path, collecting SNR for each hop.
    Trace,
    /// Multi-part packet.
    Multipart,
    /// Control data packet (unencrypted).
    Control,
    /// Custom packet (raw bytes, custom encryption).
    RawCustom,
}

/// The four-bit code of a payload type.
pub open spec fn payload_code(p: PayloadType) -> u8 {
    match p {
        PayloadType::Request => 0x00,
        PayloadType::Response => 0x01,
        PayloadType::TextMessage => 0x02,
        PayloadType::Ack => 0x03,
        PayloadType::Advert => 0x04,
        PayloadType::GroupText => 0x05,
        PayloadType::GroupData => 0x06,
        PayloadType::AnonRequest => 0x07,
        PayloadType::Path => 0x08,
        PayloadType::Trace => 0x09,
        PayloadType::Multipart => 0x0A,
        PayloadType::Control => 0x0B,
        PayloadType::RawCustom => 0x0F,
    }
}

/// The payload type with a given four-bit code; codes 0x0C-0x0E are reserved.
pub open spec fn payload_type_of_code(c: u8) -> Option<PayloadType> {
    if c == 0x00 {
        Some(PayloadType::Request)
    } else if c == 0x01 {
        Some(PayloadType::Response)
    } else if c == 0x02 {
        Some(PayloadType::TextMessage)
    } else if c == 0x03 {
        Some(PayloadType::Ack)
    } else if c == 0x04 {
        Some(PayloadType::Advert)
    } else if c == 0x05 {
        Some(PayloadType::GroupText)
    } else if c == 0x06 {
        Some(PayloadType::GroupData)
    } else if c == 0x07 {
        Some(PayloadType::AnonRequest)
    } else if c == 0x08 {
        Some(PayloadType::Path)
    } else if c == 0x09 {
        Some(PayloadType::Trace)
    } else if c == 0x0A {
        Some(PayloadType::Multipart)
    } else if c == 0x0B {
        Some(PayloadType::Control)
    } else if c == 0x0F {
        Some(PayloadType::RawCustom)
    } else {
        None
    }
}

/// Bits 2-5 of a header byte.
pub open spec fn payload_field(header: u8) -> u8 {
    (header / 4) % 16
}

/// Lower-case metric label of a payload type.
pub open spec fn payload_label(p: PayloadType) -> Seq<char> {
    match p {
        PayloadType::Request => "request"@,
        PayloadType::Response => "response"@,
        PayloadType::TextMessage => "txt_msg"@,
        PayloadType::Ack => "ack"@,
        PayloadType::Advert => "advert"@,
        PayloadType::GroupText => "grp_txt"@,
        PayloadType::GroupData => "grp_data"@,
        PayloadType::AnonRequest => "anon_request"@,
        PayloadType::Path => "path"@,
        PayloadType::Trace => "trace"@,
        PayloadType::Multipart => "multipart"@,
        PayloadType::Control => "control"@,
        PayloadType::RawCustom => "raw_custom"@,
    }
}

/// Upper-case display name of a payload type.
pub open spec fn payload_name(p: PayloadType) -> Seq<char> {
    match p {
        PayloadType::Request => "REQ"@,
        PayloadType::Response => "RESPONSE"@,
        PayloadType::TextMessage => "TXT_MSG"@,
        PayloadType::Ack => "ACK"@,
        PayloadType::Advert => "ADVERT"@,
        PayloadType::GroupText => "GRP_TXT"@,
        PayloadType::GroupData => "GRP_DATA"@,
        PayloadType::AnonRequest => "ANON_REQ"@,
        PayloadType::Path => "PATH"@,
        PayloadType::Trace => "TRACE"@,
        PayloadType::Multipart => "MULTIPART"@,
        PayloadType::Control => "CONTROL"@,
        PayloadType::RawCustom => "RAW_CUSTOM"@,
    }
}

/// The payload type code as a byte (the value hashed ahead of the payload).
pub fn payload_type_byte(p: PayloadType) -> (b: u8)
    ensures
        b == payload_code(p),
{
    match p {
        PayloadType::Request => 0x00,
        PayloadType::Response => 0x01,
        PayloadType::TextMessage => 0x02,
        PayloadType::Ack => 0x03,
        PayloadType::Advert => 0x04,
        PayloadType::GroupText => 0x05,
        PayloadType::GroupData => 0x06,
        PayloadType::AnonRequest => 0x07,
        PayloadType::Path => 0x08,
        PayloadType::Trace => 0x09,
        PayloadType::Multipart => 0x0A,
        PayloadType::Control => 0x0B,
        PayloadType::RawCustom => 0x0F,
    }
}

impl PayloadType {
    /// Create from the raw header byte (extracts bits 2-5); `None` for the
    /// reserved values 0x0C-0x0E.
    pub fn from_header(header: u8) -> (r: Option<Self>)
        ensures
            r == payload_type_of_code(payload_field(header)),
    {
        let v = (header >> 2) & 0x0F;
        assert((header >> 2) & 0x0F == (header / 4) % 16) by (bit_vector);
        if v == 0x00 {
            Some(PayloadType::Request)
        } else if v == 0x01 {
            Some(PayloadType::Response)
        } else if v == 0x02 {
            Some(PayloadType::TextMessage)
        } else if v == 0x03 {
            Some(PayloadType::Ack)
        } else if v == 0x04 {
            Some(PayloadType::Advert)
        } else if v == 0x05 {
            Some(PayloadType::GroupText)
        } else if v == 0x06 {
            Some(PayloadType::GroupData)
        } else if v == 0x07 {
            Some(PayloadType::AnonRequest)
        } else if v == 0x08 {
            Some(PayloadType::Path)
        } else if v == 0x09 {
            Some(PayloadType::Trace)
        } else if v == 0x0A {
            Some(PayloadType::Multipart)
        } else if v == 0x0B {
            Some(PayloadType::Control)
        } else if v == 0x0F {
            Some(PayloadType::RawCustom)
        } else {
            None
        }
    }

    /// Convert to bits for header (bits 2-5).
    pub fn to_bits(self) -> (b: u8)
        ensures
            b == payload_code(self) * 4,
    {
        let c = payload_type_byte(self);
        assert(c <= 15 ==> c << 2 == c * 4) by (bit_vector);
        c << 2
    }

    /// Returns a lowercase label string suitable for use as a metric label value.
    pub fn as_label(&self) -> (s: &'static str)
        ensures
            s@ == payload_label(*self),
    {
        match self {
            PayloadType::Request => "request",
            PayloadType::Response => "response",
            PayloadType::TextMessage => "txt_msg",
            PayloadType::Ack => "ack",
            PayloadType::Advert => "advert",
            PayloadType::GroupText => "grp_txt",
            PayloadType::GroupData => "grp_data",
            PayloadType::AnonRequest => "anon_request",
            PayloadType::Path => "path",
            PayloadType::Trace => "trace",
            PayloadType::Multipart => "multipart",
            PayloadType::Control => "control",
            PayloadType::RawCustom => "raw_custom",
        }
    }

    /// Upper-case name used when displaying a packet.
    pub fn display_name(&self) -> (s: &'static str)
        ensures
            s@ == payload_name(*self),
    {
        match self {
            PayloadType::Request => "REQ",
            PayloadType::Response => "RESPONSE",
            PayloadType::TextMessage => "TXT_MSG",
            PayloadType::Ack => "ACK",
            PayloadType::Advert => "ADVERT",
            PayloadType::GroupText => "GRP_TXT",
            PayloadType::GroupData => "GRP_DATA",
            PayloadType::AnonRequest => "ANON_REQ",
            PayloadType::Path => "PATH",
            PayloadType::Trace => "TRACE",
            PayloadType::Multipart => "MULTIPART",
            PayloadType::Control => "CONTROL",
            PayloadType::RawCustom => "RAW_CUSTOM",
        }
    }
}

/// Encoding a payload type into header bits and decoding it back gives the same
/// payload type; distinct payload types have distinct codes.
pub proof fn lemma_payload_type_roundtrip(p: PayloadType, q: PayloadType)
    ensures
        payload_code(p) <= 15,
        payload_type_of_code(payload_code(p)) == Some(p),
        payload_type_of_code(payload_field((payload_code(p) * 4) as u8)) == Some(p),
        payload_code(p) == payload_code(q) ==> p == q,
{
    let c = payload_code(p);
    assert(c <= 15 ==> ((c * 4) as u8 / 4) % 16 == c) by (nonlinear_arith);
}

// ----------------------------------------------------------------------------
// Payload version
// ----------------------------------------------------------------------------

/// Payload version (bits 6-7 of header).
#[derive(Debug, Clone, Copy, PartialEq, Eq, Structural)]
pub enum PayloadVersion {
    /// Version 1: 1-byte src/dest hashes, 2-byte MAC.
    V1,
    /// Version 2: Future (e.g., 2-byte hashes, 4-byte MAC).
    V2,
    /// Version 3: Future.
    V3,
    /// Version 4: Future.
    V4,
}

/// The two-bit code of a payload version.
pub open spec fn version_code(v: PayloadVersion) -> u8 {
    match v {
        PayloadVersion::V1 => 0,
        PayloadVersion::V2 => 1,
        PayloadVersion::V3 => 2,
        PayloadVersion::V4 => 3,
    }
}

/// The payload version named by bits 6-7 of a header byte.
pub open spec fn version_from_bits(header: u8) -> PayloadVersion {
    let b = (header / 64) % 4;
    if b == 0 {
        PayloadVersion::V1
    } else if b == 1 {
        PayloadVersion::V2
    } else if b == 2 {
        PayloadVersion::V3
    } else {
        PayloadVersion::V4
    }
}

impl Default for PayloadVersion {
    fn default() -> (v: Self)
        ensures
            v == PayloadVersion::V1,
    {
        PayloadVersion::V1
    }
}

impl PayloadVersion {
    /// Create from the raw header byte (extracts bits 6-7).
    pub fn from_header(header: u8) -> (v: Self)
        ensures
            v == version_from_bits(header),
    {
        let b = (header >> 6) & 0x03;
        assert((header >> 6) & 0x03 == (header / 64) % 4) by (bit_vector);
        if b == 0 {
            PayloadVersion::V1
        } else if b == 1 {
            PayloadVersion::V2
        } else if b == 2 {
            PayloadVersion::V3
        } else {
            PayloadVersion::V4
        }
    }

    /// Convert to bits for header (bits 6-7).
    pub fn to_bits(self) -> (b: u8)
        ensures
            b == version_code(self) * 64,
    {
        match self {
            PayloadVersion::V1 => 0x00,
            PayloadVersion::V2 => 0x40,
            PayloadVersion::V3 => 0x80,
            PayloadVersion::V4 => 0xC0,
        }
    }

    /// Get the hash size for this version: one byte in V1, two in later versions.
    pub fn hash_size(self) -> (n: usize)
        ensures
            n == (if self == PayloadVersion::V1 { 1usize } else { 2usize }),
    {
        match self {
            PayloadVersion::V1 => 1,
            _ => 2,
        }
    }

    /// Get the MAC size for this version: two bytes in V1, four in later versions.
    pub fn mac_size(self) -> (n: usize)
        ensures
            n == (if self == PayloadVersion::V1 { 2usize } else { 4usize }),
    {
        match self {
            PayloadVersion::V1 => 2,
            _ => 4,
        }
    }
}

// ----------------------------------------------------------------------------
// Transport codes
// ----------------------------------------------------------------------------

/// Transport codes (present when route_type has transport flag).
#[derive(Debug, Clone, Copy, PartialEq, Eq, Structural)]
pub struct TransportCodes {
    /// First transport code.
    pub code1: u16,
    /// Second transport code.
    pub code2: u16,
}

/// Little-endian bytes of a 16-bit value.
pub open spec fn le16(v: u16) -> Seq<u8> {
    seq![(v % 256) as u8, (v / 256) as u8]
}

/// The 16-bit value of two little-endian bytes.
pub open spec fn from_le16(lo: u8, hi: u8) -> u16 {
    (lo + 256 * hi) as u16
}

impl Default for TransportCodes {
    fn default() -> (t: Self)
        ensures
            t.code1 == 0 && t.code2 == 0,
    {
        TransportCodes { code1: 0, code2: 0 }
    }
}

impl TransportCodes {
    /// Encode to 4 bytes (little-endian).
    pub fn encode(&self) -> (buf: [u8; 4])
        ensures
            buf@ == le16(self.code1) + le16(self.code2),
    {
        let c1 = self.code1;
        let c2 = self.code2;
        let buf = [(c1 % 256) as u8, (c1 / 256) as u8, (c2 % 256) as u8, (c2 / 256) as u8];
        assert(buf@ =~= le16(self.code1) + le16(self.code2));
        buf
    }

    /// Decode from the first 4 bytes (little-endian).
    pub fn decode(data: &[u8]) -> (t: Self)
        requires
            data@.len() >= 4,
        ensures
            t.code1 == from_le16(data@[0], data@[1]),
            t.code2 == from_le16(data@[2], data@[3]),
    {
        TransportCodes {
            code1: data[0] as u16 + 256 * (data[1] as u16),
            code2: data[2] as u16 + 256 * (data[3] as u16),
        }
    }
}

/// Decoding the four encoded bytes of transport codes gives the codes back,
/// and encoding decoded bytes gives the first four bytes back.
pub proof fn lemma_transport_codes_roundtrip(t: TransportCodes, d: Seq<u8>)
    requires
        d.len() >= 4,
    ensures
        ({
            let e = le16(t.code1) + le16(t.code2);
            from_le16(e[0], e[1]) == t.code1 && from_le16(e[2], e[3]) == t.code2
        }),
        le16(from_le16(d[0], d[1])) + le16(from_le16(d[2], d[3])) =~= d.take(4),
{
}

// ----------------------------------------------------------------------------
// Packet header
// ----------------------------------------------------------------------------

/// The header byte of the given route type, payload type and version.
pub open spec fn header_byte(rt: RouteType, pt: PayloadType, v: PayloadVersion) -> u8 {
    (route_code(rt) + payload_code(pt) * 4 + version_code(v) * 64) as u8
}

/// Packet header (decoded form).
#[derive(Debug, Clone, Copy, PartialEq, Eq, Structural)]
pub struct PacketHeader {
    /// Route type (flood, direct, etc.).
    pub route_type: RouteType,
    /// Payload type (advert, ack, text, etc.).
    pub payload_type: PayloadType,
    /// Payload version.
    pub version: PayloadVersion,
    /// Transport codes (only if route_type has transport flag).
    pub transport_codes: Option<TransportCodes>,
    /// Path length in bytes.
    pub path_len: u8,
}

impl Default for PacketHeader {
    fn default() -> (h: Self)
        ensures
            h.route_type == RouteType::Flood,
            h.payload_type == PayloadType::Advert,
            h.version == PayloadVersion::V1,
            h.transport_codes is None,
            h.path_len == 0,
    {
        PacketHeader {
            route_type: RouteType::Flood,
            payload_type: PayloadType::Advert,
            version: PayloadVersion::V1,
            transport_codes: None,
            path_len: 0,
        }
    }
}

impl PacketHeader {
    /// Create a new V1 header with the given types; transport codes are zeroed
    /// when the route type carries them.
    pub fn new(route_type: RouteType, payload_type: PayloadType) -> (h: Self)
        ensures
            h.route_type == route_type,
            h.payload_type == payload_type,
            h.version == PayloadVersion::V1,
            route_has_transport(route_type) ==> h.transport_codes == Some(
                TransportCodes { code1: 0, code2: 0 },
            ),
            !route_has_transport(route_type) ==> h.transport_codes is None,
            h.path_len == 0,
    {
        PacketHeader {
            route_type,
            payload_type,
            version: PayloadVersion::V1,
            transport_codes: if route_type.has_transport_codes() {
                Some(TransportCodes::default())
            } else {
                None
            },
            path_len: 0,
        }
    }

    /// Encode the header byte.
    pub fn encode_header_byte(&self) -> (b: u8)
        ensures
            b == header_byte(self.route_type, self.payload_type, self.version),
    {
        let r = self.route_type.to_bits();
        let p = self.payload_type.to_bits();
        let v = self.version.to_bits();
        let ghost rc = route_code(self.route_type);
        let ghost pc = payload_code(self.payload_type);
        let ghost vc = version_code(self.version);
        assert(pc <= 15);
        assert(rc <= 3 && pc <= 15 && vc <= 3 && r == rc && p == pc * 4 && v == vc * 64 ==> r | p
            | v == rc + pc * 4 + vc * 64) by (bit_vector);
        r | p | v
    }

    /// Decode a header from its raw byte; transport codes and path length are
    /// left empty for the packet decoder to fill in.
    pub fn from_header_byte(header: u8) -> (r: Result<Self, PacketError>)
        ensures
            match r {
                Ok(h) => {
                    &&& payload_type_of_code(payload_field(header)) == Some(h.payload_type)
                    &&& h.route_type == route_from_bits(header)
                    &&& h.version == version_from_bits(header)
                    &&& h.transport_codes is None
                    &&& h.path_len == 0
                },
                Err(e) => {
                    &&& payload_type_of_code(payload_field(header)) is None
                    &&& e == PacketError::InvalidPacketType(payload_field(header))
                },
            },
    {
        let route_type = RouteType::from_header(header);
        let payload_type = match PayloadType::from_header(header) {
            Some(p) => p,
            None => {
                let field = (header >> 2) & 0x0F;
                assert((header >> 2) & 0x0F == (header / 4) % 16) by (bit_vector);
                return Err(PacketError::InvalidPacketType(field));
            },
        };
        let version = PayloadVersion::from_header(header);
        Ok(PacketHeader { route_type, payload_type, version, transport_codes: None, path_len: 0 })
    }
}

/// The header byte keeps all three fields: decoding an encoded header byte
/// gives back the route type, payload type and version it was made from.
pub proof fn lemma_header_byte_roundtrip(rt: RouteType, pt: PayloadType, v: PayloadVersion)
    ensures
        route_from_bits(header_byte(rt, pt, v)) == rt,
        payload_type_of_code(payload_field(header_byte(rt, pt, v))) == Some(pt),
        version_from_bits(header_byte(rt, pt, v)) == v,
{
    let rc = route_code(rt);
    let pc = payload_code(pt);
    let vc = version_code(v);
    assert(pc <= 15);
    assert(rc <= 3 && pc <= 15 && vc <= 3 ==> {
        let b = (rc + pc * 4 + vc * 64) as u8;
        &&& b % 4 == rc
        &&& (b / 4) % 16 == pc
        &&& (b / 64) % 4 == vc
    }) by (bit_vector);
}

/// Every header byte with a valid payload type field is the encoding of the
/// fields decoded from it.
pub proof fn lemma_header_byte_decode_encode(b: u8)
    requires
        payload_type_of_code(payload_field(b)) is Some,
    ensures
        header_byte(
            route_from_bits(b),
            payload_type_of_code(payload_field(b))->0,
            version_from_bits(b),
        ) == b,
{
    let pt = payload_type_of_code(payload_field(b))->0;
    assert(payload_code(pt) == payload_field(b));
    assert(route_code(route_from_bits(b)) == b % 4);
    assert(version_code(version_from_bits(b)) == (b / 64) % 4);
    assert(b % 4 + ((b / 4) % 16) * 4 + ((b / 64) % 4) * 64 == b) by (bit_vector);
}

} // verus!
