use mcsim::header::{PacketHeader, PayloadType, PayloadVersion, RouteType, TransportCodes, PacketError};
use mcsim::packet::{be_u64_prefix, MeshCorePacket, PayloadHash, NodeCapabilities, PacketBuilder, EncryptionKey, Destination};
use mcsim::payload::{
    AdvertFlags, AdvertPayload, ControlSubType, PacketPayload, RequestType, TextType,
};

#[test]
fn test_route_type_roundtrip() {
    for rt in [
        RouteType::TransportFlood,
        RouteType::Flood,
        RouteType::Direct,
        RouteType::TransportDirect,
    ] {
        let header = rt.to_bits();
        let decoded = RouteType::from_header(header);
        assert_eq!(rt, decoded);
    }
}

#[test]
fn test_payload_type_roundtrip() {
    for pt in [
        PayloadType::Request,
        PayloadType::Response,
        PayloadType::TextMessage,
        PayloadType::Ack,
        PayloadType::Advert,
        PayloadType::GroupText,
        PayloadType::GroupData,
        PayloadType::AnonRequest,
        PayloadType::Path,
        PayloadType::Trace,
        PayloadType::Multipart,
        PayloadType::Control,
        PayloadType::RawCustom,
    ] {
        let header = pt.to_bits();
        let decoded = PayloadType::from_header(header).unwrap();
        assert_eq!(pt, decoded);
    }
}

#[test]
fn test_header_encoding() {
    let header = PacketHeader {
        route_type: RouteType::Direct,
        payload_type: PayloadType::TextMessage,
        version: PayloadVersion::V1,
        transport_codes: None,
        path_len: 0,
    };

    let byte = header.encode_header_byte();
    // route_type=0x02, payload_type=0x02<<2=0x08, version=0x00
    assert_eq!(byte, 0x0A);

    let decoded = PacketHeader::from_header_byte(byte).unwrap();
    assert_eq!(decoded.route_type, RouteType::Direct);
    assert_eq!(decoded.payload_type, PayloadType::TextMessage);
    assert_eq!(decoded.version, PayloadVersion::V1);
}

#[test]
fn test_advert_flags_roundtrip() {
    let flags = AdvertFlags {
        is_repeater: true,
        has_location: true,
        has_name: true,
        ..Default::default()
    };
    let byte = flags.to_byte();
    let decoded = AdvertFlags::from_byte(byte);
    assert_eq!(flags.is_repeater, decoded.is_repeater);
    assert_eq!(flags.has_location, decoded.has_location);
    assert_eq!(flags.has_name, decoded.has_name);
}

#[test]
fn test_packet_creation() {
    let advert = AdvertPayload::repeater([1u8; 32], 1234567890, [2u8; 64], "TestNode");
    let packet = MeshCorePacket::advert(advert);

    assert_eq!(packet.header.route_type, RouteType::Flood);
    assert_eq!(packet.header.payload_type, PayloadType::Advert);
    assert!(packet.is_flood());
}

#[test]
fn test_payload_hash_meshcore_analyzer_vectors() {
    // TXT_MSG packet (header 0x09 = FLOOD + TXT_MSG)
    let packet1 = hex::decode("0902D72A40FBFEF5D8FC1C71FA28DEC614A03DF13A6E5509C47575973BFAD6392BFC97D21C8EDDB5FCE33A4191D17C1C6E8BC13587847C8C").unwrap();
    // TXT_MSG packet
    let packet2 = hex::decode("0909E0860A8941BA1C28AA3EF558DEDEBAE3E7F88826A6FC695771A2DCF6D705D5C5F01DCFFCFC5BD70064CD9522E9").unwrap();
    // TRACE packet (header 0x26 = DIRECT + TRACE)
    let packet3 = hex::decode("26030D2E280E9F544A000000000022CC22").unwrap();

    let hash1 = MeshCorePacket::payload_hash_from_bytes(&packet1).expect("Should decode");
    let hash2 = MeshCorePacket::payload_hash_from_bytes(&packet2).expect("Should decode");
    let _hash3 = MeshCorePacket::payload_hash_from_bytes(&packet3).expect("Should decode");

    const EXPECTED_HASH1: u64 = 0xACBE2BF9922B5221;
    const EXPECTED_HASH2: u64 = 0xC31738B783BFBC86;

    assert_eq!(hash1, EXPECTED_HASH1,
        "Vector 1 hash mismatch: got {:016X}, expected {:016X}", hash1, EXPECTED_HASH1);
    assert_eq!(hash2, EXPECTED_HASH2,
        "Vector 2 hash mismatch: got {:016X}, expected {:016X}", hash2, EXPECTED_HASH2);
}

#[test]
fn test_route_type_as_label() {
    assert_eq!(RouteType::Flood.as_label(), "flood");
    assert_eq!(RouteType::Direct.as_label(), "direct");
    assert_eq!(RouteType::TransportFlood.as_label(), "transport_flood");
    assert_eq!(RouteType::TransportDirect.as_label(), "transport_direct");
}

#[test]
fn test_payload_type_as_label() {
    assert_eq!(PayloadType::Request.as_label(), "request");
    assert_eq!(PayloadType::Response.as_label(), "response");
    assert_eq!(PayloadType::TextMessage.as_label(), "txt_msg");
    assert_eq!(PayloadType::Ack.as_label(), "ack");
    assert_eq!(PayloadType::Advert.as_label(), "advert");
    assert_eq!(PayloadType::GroupText.as_label(), "grp_txt");
    assert_eq!(PayloadType::GroupData.as_label(), "grp_data");
    assert_eq!(PayloadType::AnonRequest.as_label(), "anon_request");
    assert_eq!(PayloadType::Path.as_label(), "path");
    assert_eq!(PayloadType::Trace.as_label(), "trace");
    assert_eq!(PayloadType::Multipart.as_label(), "multipart");
    assert_eq!(PayloadType::Control.as_label(), "control");
    assert_eq!(PayloadType::RawCustom.as_label(), "raw_custom");
}

#[test]
fn test_payload_hash_type() {
    let hash = PayloadHash::new(0x123456789ABCDEF0);

    assert_eq!(hash.as_u64(), 0x123456789ABCDEF0);
    assert_eq!(hash.as_hex(), "123456789ABCDEF0");
    assert_eq!(hash.as_label(), "123456789ABCDEF0");
    assert_eq!(hash.as_hex(), "123456789ABCDEF0");
}

#[test]
fn test_payload_hash_from_bytes() {
    let packet_bytes = hex::decode("0503F41B7391E9D465D097B9F8BC90F3B76131CBAC31509105").unwrap();

    let hash = PayloadHash::from_bytes(&packet_bytes).expect("Should decode");
    let direct_hash = MeshCorePacket::payload_hash_from_bytes(&packet_bytes).expect("Should decode");

    assert_eq!(hash.as_u64(), direct_hash);
}

#[test]
fn test_payload_hash_conversions() {
    let value: u64 = 0xDEADBEEFCAFEBABE;

    let hash: PayloadHash = value.into();
    assert_eq!(hash.as_u64(), value);

    let back: u64 = hash.into();
    assert_eq!(back, value);
}

// ---------------------------------------------------------------------------
// Further cases
// ---------------------------------------------------------------------------

#[test]
fn header_byte_roundtrip_all_valid_bytes() {
    for b in 0u8..=255 {
        match PacketHeader::from_header_byte(b) {
            Ok(h) => assert_eq!(h.encode_header_byte(), b),
            Err(PacketError::InvalidPacketType(v)) => {
                assert!((0x0C..=0x0E).contains(&v));
                assert_eq!(v, (b >> 2) & 0x0F);
            }
        }
    }
}

#[test]
fn reserved_payload_type_is_rejected() {
    // payload type field 0x0C
    assert_eq!(PayloadType::from_header(0x0C << 2), None);
    assert!(matches!(
        PacketHeader::from_header_byte(0x0D << 2),
        Err(PacketError::InvalidPacketType(0x0D))
    ));
}

#[test]
fn payload_type_bits_values() {
    assert_eq!(PayloadType::RawCustom.to_bits(), 0x3C);
    assert_eq!(PayloadType::Advert.to_bits(), 0x10);
    assert_eq!(PayloadVersion::V4.to_bits(), 0xC0);
    assert_eq!(PayloadVersion::from_header(0x80), PayloadVersion::V3);
    assert_eq!(PayloadVersion::V1.hash_size(), 1);
    assert_eq!(PayloadVersion::V2.hash_size(), 2);
    assert_eq!(PayloadVersion::V1.mac_size(), 2);
    assert_eq!(PayloadVersion::V3.mac_size(), 4);
}

#[test]
fn route_type_predicates() {
    assert!(RouteType::TransportFlood.has_transport_codes());
    assert!(!RouteType::Flood.has_transport_codes());
    assert!(RouteType::TransportFlood.is_flood());
    assert!(!RouteType::TransportFlood.is_direct());
    assert!(RouteType::TransportDirect.is_direct());
}

#[test]
fn transport_codes_roundtrip() {
    let t = TransportCodes { code1: 0x1234, code2: 0xABCD };
    let bytes = t.encode();
    assert_eq!(bytes, [0x34, 0x12, 0xCD, 0xAB]);
    let back = TransportCodes::decode(&bytes);
    assert_eq!(back, t);
}

#[test]
fn packet_header_new_sets_transport_codes() {
    let h = PacketHeader::new(RouteType::TransportDirect, PayloadType::Ack);
    assert_eq!(h.transport_codes, Some(TransportCodes { code1: 0, code2: 0 }));
    assert_eq!(h.version, PayloadVersion::V1);
    let h = PacketHeader::new(RouteType::Flood, PayloadType::Ack);
    assert_eq!(h.transport_codes, None);
}

#[test]
fn advert_flags_byte_values() {
    assert_eq!(AdvertFlags::repeater().to_byte(), 0x82);
    assert_eq!(AdvertFlags::chat_node().to_byte(), 0x81);
    let f = AdvertFlags::from_byte(0xF3);
    assert!(f.is_room_server && f.has_location && f.has_feature1 && f.has_feature2 && f.has_name);
    assert!(!f.is_chat_node && !f.is_repeater && !f.is_sensor);
    // Two node types merge in the lower nibble.
    let both = AdvertFlags { is_chat_node: true, is_repeater: true, ..Default::default() };
    assert!(AdvertFlags::from_byte(both.to_byte()).is_room_server);
}

#[test]
fn text_type_and_request_type() {
    let b = TextType::Signed.to_byte(7);
    assert_eq!(b, 0x0B);
    assert_eq!(TextType::from_byte(b), TextType::Signed);
    assert_eq!(TextType::from_byte(0xFC), TextType::Plain);
    assert_eq!(RequestType::from_u8(3), Some(RequestType::GetTelemetry));
    assert_eq!(RequestType::from_u8(0), None);
    assert_eq!(RequestType::from_u8(6), None);
}

#[test]
fn control_subtype_flags() {
    assert_eq!(ControlSubType::from_flags(0x8F), ControlSubType::DiscoverRequest);
    assert_eq!(ControlSubType::from_flags(0x93), ControlSubType::DiscoverResponse);
    assert_eq!(ControlSubType::from_flags(0x52), ControlSubType::Other(5));
    assert_eq!(ControlSubType::Other(5).to_flags(), 0x50);
    assert_eq!(ControlSubType::DiscoverResponse.to_flags(), 0x90);
    // Other(8) writes the discovery request bits.
    assert_eq!(ControlSubType::from_flags(ControlSubType::Other(8).to_flags()), ControlSubType::DiscoverRequest);
}

#[test]
fn packet_constructors() {
    let p = MeshCorePacket::ack(0xDEADBEEF);
    assert_eq!(p.payload_type(), PayloadType::Ack);
    assert_eq!(p.route_type(), RouteType::Flood);
    let p = MeshCorePacket::text_message(1, 2, 3, vec![9, 9]);
    assert_eq!(p.payload_type(), PayloadType::TextMessage);
    assert!(p.is_direct());
    assert_eq!(p.path_len(), 0);
    let p = MeshCorePacket::group_text(7, 8, vec![]);
    assert_eq!(p.payload_type(), PayloadType::GroupText);
    let p = PacketBuilder::raw(vec![1, 2, 3]);
    assert_eq!(p.payload_type(), PayloadType::RawCustom);
    let p = MeshCorePacket::new(RouteType::TransportFlood, PacketPayload::Raw(vec![]));
    assert_eq!(p.header.transport_codes, Some(TransportCodes { code1: 0, code2: 0 }));
    let p = PacketBuilder::advert("Node", NodeCapabilities::repeater());
    match &p.payload {
        PacketPayload::Advert(a) => {
            assert_eq!(a.name.as_deref(), Some("Node"));
            assert_eq!(a.public_key_hash(), 0);
            assert!(a.flags.has_name && !a.flags.is_repeater);
        }
        _ => panic!("expected an advert"),
    }
}

#[test]
fn packet_display_text() {
    let mut p = MeshCorePacket::advert(AdvertPayload::new([3u8; 32], 1, [0u8; 64], "A"));
    p.path = vec![1, 2, 3, 4, 5, 6, 7, 8, 9, 10, 11, 12];
    assert_eq!(
        p.display(),
        "Packet { route: FLOOD, type: ADVERT, version: V1, path_len: 12 }"
    );
    let q = MeshCorePacket::default();
    assert_eq!(
        q.display(),
        "Packet { route: FLOOD, type: ADVERT, version: V1, path_len: 0 }"
    );
}

#[test]
fn payload_hash_framing_errors() {
    assert_eq!(MeshCorePacket::payload_hash_from_bytes(&[]), None);
    // header only: no path length byte
    assert_eq!(MeshCorePacket::payload_hash_from_bytes(&[0x09]), None);
    // reserved payload type
    assert_eq!(MeshCorePacket::payload_hash_from_bytes(&[0x30, 0x00]), None);
    // path longer than the bytes
    assert_eq!(MeshCorePacket::payload_hash_from_bytes(&[0x09, 0x05, 0x01]), None);
    // transport route: needs four code bytes before the path length
    assert_eq!(MeshCorePacket::payload_hash_from_bytes(&[0x08, 0, 0, 0, 0]), None);
    assert!(MeshCorePacket::payload_hash_from_bytes(&[0x08, 0, 0, 0, 0, 0]).is_some());
}

#[test]
fn payload_hash_ignores_path_and_route() {
    // Same payload, different path bytes and route type: same hash.
    let a = MeshCorePacket::payload_hash_from_bytes(&[0x09, 0x02, 0xAA, 0xBB, 0x10, 0x20]).unwrap();
    let b = MeshCorePacket::payload_hash_from_bytes(&[0x0A, 0x01, 0xCC, 0x10, 0x20]).unwrap();
    assert_eq!(a, b);
    // TRACE: the path length is hashed.
    let c = MeshCorePacket::payload_hash_from_bytes(&[0x26, 0x02, 0xAA, 0xBB, 0x10]).unwrap();
    let d = MeshCorePacket::payload_hash_from_bytes(&[0x26, 0x01, 0xAA, 0x10]).unwrap();
    assert_ne!(c, d);
}

#[test]
fn payload_hash_hex_is_zero_padded() {
    assert_eq!(PayloadHash::new(0xAB).as_hex(), "00000000000000AB");
    assert_eq!(PayloadHash::new(u64::MAX).as_label(), "FFFFFFFFFFFFFFFF");
    // The hex wrapper is not the identity on its argument.
    assert_ne!(PayloadHash::new(0).as_hex(), "0");
}

#[test]
fn legacy_types() {
    let caps = NodeCapabilities::client();
    let flags = caps.to_advert_flags();
    assert!(flags.is_chat_node && !flags.is_repeater && !flags.has_name);
    let none = NodeCapabilities::none();
    assert!(!none.is_repeater && !none.is_client);
    let key = EncryptionKey::from_bytes([5u8; 32]);
    assert_eq!(key.as_bytes(), &[5u8; 32]);
    assert_eq!(Destination::default(), Destination::Flood);
}

#[test]
fn advert_fixed_location() {
    let a = AdvertPayload::new([1u8; 32], 5, [0u8; 64], "node").with_fixed_location(47_606_200, -122_332_100);
    assert!(a.flags.has_location);
    assert!(a.flags.has_name);
    assert_eq!(a.latitude, Some(47_606_200));
    assert_eq!(a.longitude, Some(-122_332_100));
    assert_eq!(a.timestamp, 5);
    assert_eq!(a.name.as_deref(), Some("node"));
}

#[test]
fn digest_prefix_is_big_endian() {
    assert_eq!(be_u64_prefix(&[0, 0, 0, 0, 0, 0, 1, 2, 9]), 0x0102);
    assert_eq!(be_u64_prefix(&[0x12, 0x34, 0x56, 0x78, 0x9a, 0xbc, 0xde, 0xf0]), 0x1234_5678_9abc_def0);
}
