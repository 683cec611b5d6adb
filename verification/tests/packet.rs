use pcap_decode::packet::{DecodeError, EtherType, EthernetPacket, IPv4Packet, MacAddress};

#[test]
fn test_mac_address() {
    let mac = MacAddress([0x01, 0x23, 0x45, 0x67, 0x89, 0xAB]);
    assert_eq!(mac.to_hex_string(), "01:23:45:67:89:AB");
}

#[test]
fn test_ethernet_packet() {
    let data: [u8; 14] = [
        0x01, 0x23, 0x45, 0x67, 0x89, 0xAB, 0x01, 0x23, 0x45, 0x67, 0x89, 0xAC, 0x08, 0x00,
    ];
    let packet: EthernetPacket = EthernetPacket::try_from(&data[..]).unwrap();
    assert_eq!(
        packet.header.dest_mac.0,
        [0x01, 0x23, 0x45, 0x67, 0x89, 0xAB]
    );
    assert_eq!(
        packet.header.src_mac.0,
        [0x01, 0x23, 0x45, 0x67, 0x89, 0xAC]
    );
    assert_eq!(packet.header.ether_type, EtherType::IPv4);
}

#[test]
fn test_ipv4_packet() {
    let data: [u8; 24] = [
        0x45, 0x00, 0x00, 0x18, 0x1c, 0x46, 0x40, 0x00, 0x40, 0x06, 0xb1, 0xe6, 0xc0, 0xa8,
        0x00, 0x01, 0xc0, 0xa8, 0x00, 0xc7, 0xde, 0xad, 0xbe, 0xef,
    ];
    let packet: IPv4Packet = IPv4Packet::try_from(&data[..]).unwrap();

    assert_eq!(packet.version, 4);
    assert_eq!(packet.ihl, 5);
    assert_eq!(packet.total_length, 24);
    assert_eq!(packet.ttl, 64);
    assert_eq!(packet.protocol, 6); // TCP
    assert_eq!(packet.source_ip, [192, 168, 0, 1]);
    assert_eq!(packet.dest_ip, [192, 168, 0, 199]);
    assert_eq!(packet.payload, vec![0xde, 0xad, 0xbe, 0xef]);
}

#[test]
fn test_ipv4_packet_checksum_valid() {
    // The checksum of this fixed header is 0x9c81: the words of the header
    // with the checksum field zeroed sum to 0x2637c, which folds to 0x637e,
    // whose one's complement is 0x9c81.
    let data: [u8; 24] = [
        0x45, 0x00, 0x00, 0x18, 0x1c, 0x46, 0x40, 0x00, 0x40, 0x06, 0x9c, 0x81, 0xc0, 0xa8,
        0x00, 0x01, 0xc0, 0xa8, 0x00, 0xc7, 0xde, 0xad, 0xbe, 0xef,
    ];
    let packet: IPv4Packet = IPv4Packet::try_from(&data[..]).unwrap();
    assert!(packet.validate_checksum());
}

#[test]
fn test_ipv4_packet_checksum_invalid() {
    let data: [u8; 24] = [
        0x45, 0x00, 0x00, 0x18, 0x1c, 0x46, 0x40, 0x00, 0x40, 0x06, 0x00, 0x00, 0xc0, 0xa8,
        0x00, 0x01, 0xc0, 0xa8, 0x00, 0xc7, 0xde, 0xad, 0xbe, 0xef,
    ];
    let packet: IPv4Packet = IPv4Packet::try_from(&data[..]).unwrap();
    assert!(!packet.validate_checksum());
}

#[test]
fn mac_address_from_bytes_and_octets() {
    let mac = MacAddress::from([1, 2, 3, 4, 5, 6]);
    assert_eq!(mac.0, [1, 2, 3, 4, 5, 6]);
    assert_eq!(mac.octets(), [1, 2, 3, 4, 5, 6]);
    let zero = MacAddress([0, 0, 0, 0, 0, 0]);
    assert_eq!(zero.to_hex_string(), "00:00:00:00:00:00");
}

#[test]
fn ether_type_mapping_exact() {
    assert_eq!(EtherType::from(0x0800), EtherType::IPv4);
    assert_eq!(EtherType::from(0x0806), EtherType::ARP);
    assert_eq!(EtherType::from(0x86DD), EtherType::IPv6);
    assert_eq!(EtherType::from(0x1234), EtherType::Unknown(0x1234));
    assert_eq!(EtherType::IPv4.as_u16(), 0x0800);
    assert_eq!(EtherType::ARP.as_u16(), 0x0806);
    assert_eq!(EtherType::IPv6.as_u16(), 0x86DD);
    assert_eq!(EtherType::Unknown(0x4242).as_u16(), 0x4242);
}

#[test]
fn ether_type_roundtrip_through_encoding() {
    let values: Vec<u16> = vec![0x0000, 0x0800, 0x0806, 0x86DD, 0x1234, 0xFFFF];
    for v in values {
        assert_eq!(EtherType::from(v).as_u16(), v);
    }
    let tags = vec![
        EtherType::IPv4,
        EtherType::ARP,
        EtherType::IPv6,
        EtherType::Unknown(0x0042),
    ];
    for t in tags {
        assert_eq!(EtherType::from(t.as_u16()), t);
    }
}

#[test]
fn ethernet_type_bytes_select_tag() {
    let mut data: [u8; 14] = [0; 14];

    data[12] = 0x08;
    data[13] = 0x00;
    let p = EthernetPacket::try_from(&data[..]).unwrap();
    assert_eq!(p.header.ether_type, EtherType::IPv4);
    assert_eq!(p.data.len(), 0);

    data[12] = 0x08;
    data[13] = 0x06;
    let p = EthernetPacket::try_from(&data[..]).unwrap();
    assert_eq!(p.header.ether_type, EtherType::ARP);

    data[12] = 0x86;
    data[13] = 0xDD;
    let p = EthernetPacket::try_from(&data[..]).unwrap();
    assert_eq!(p.header.ether_type, EtherType::IPv6);

    data[12] = 0x12;
    data[13] = 0x34;
    let p = EthernetPacket::try_from(&data[..]).unwrap();
    assert_eq!(p.header.ether_type, EtherType::Unknown(0x1234));
}

#[test]
fn ethernet_too_short_is_rejected() {
    let data: [u8; 13] = [0; 13];
    assert_eq!(
        EthernetPacket::try_from(&data[..]).unwrap_err(),
        DecodeError::FrameTooShort
    );
    let empty: [u8; 0] = [];
    assert_eq!(
        EthernetPacket::try_from(&empty[..]).unwrap_err(),
        DecodeError::FrameTooShort
    );
}

#[test]
fn ethernet_payload_is_copied_after_header() {
    let data: [u8; 18] = [
        0, 1, 2, 3, 4, 5, 6, 7, 8, 9, 10, 11, 0x08, 0x00, 0xca, 0xfe, 0xba, 0xbe,
    ];
    let p = EthernetPacket::try_from(&data[..]).unwrap();
    assert_eq!(p.data, vec![0xca, 0xfe, 0xba, 0xbe]);
}

#[test]
fn ipv4_too_short_is_rejected() {
    let data: [u8; 19] = [0x45; 19];
    assert_eq!(
        IPv4Packet::try_from(&data[..]).unwrap_err(),
        DecodeError::DatagramTooShort
    );
}

#[test]
fn ipv4_wrong_version_is_rejected() {
    let mut data: [u8; 24] = [0; 24];
    data[0] = 0x65; // version 6
    assert_eq!(
        IPv4Packet::try_from(&data[..]).unwrap_err(),
        DecodeError::ProtocolMismatch
    );
}

#[test]
fn ipv4_declared_length_beyond_input_is_rejected() {
    let mut data: [u8; 24] = [
        0x45, 0x00, 0x00, 0x18, 0x1c, 0x46, 0x40, 0x00, 0x40, 0x06, 0xb1, 0xe6, 0xc0, 0xa8,
        0x00, 0x01, 0xc0, 0xa8, 0x00, 0xc7, 0xde, 0xad, 0xbe, 0xef,
    ];
    // declare a total length of 25 with only 24 bytes present
    data[3] = 0x19;
    assert_eq!(
        IPv4Packet::try_from(&data[..]).unwrap_err(),
        DecodeError::LengthMismatch
    );
}

#[test]
fn ipv4_header_beyond_input_is_rejected() {
    // ihl 15 declares a 60-byte header, but only 20 bytes are present
    let mut data: [u8; 20] = [0; 20];
    data[0] = 0x4F;
    data[3] = 20;
    assert_eq!(
        IPv4Packet::try_from(&data[..]).unwrap_err(),
        DecodeError::LengthMismatch
    );
}

#[test]
fn ipv4_corrupt_checksum_leaves_other_fields_unchanged() {
    let good: [u8; 24] = [
        0x45, 0x00, 0x00, 0x18, 0x1c, 0x46, 0x40, 0x00, 0x40, 0x06, 0x9c, 0x81, 0xc0, 0xa8,
        0x00, 0x01, 0xc0, 0xa8, 0x00, 0xc7, 0xde, 0xad, 0xbe, 0xef,
    ];
    let mut bad = good;
    bad[10] = 0;
    bad[11] = 0;
    let p_good = IPv4Packet::try_from(&good[..]).unwrap();
    let p_bad = IPv4Packet::try_from(&bad[..]).unwrap();
    assert!(p_good.validate_checksum());
    assert!(!p_bad.validate_checksum());
    assert_eq!(p_good.version, p_bad.version);
    assert_eq!(p_good.ihl, p_bad.ihl);
    assert_eq!(p_good.tos, p_bad.tos);
    assert_eq!(p_good.total_length, p_bad.total_length);
    assert_eq!(p_good.identification, p_bad.identification);
    assert_eq!(p_good.flags, p_bad.flags);
    assert_eq!(p_good.fragment_offset, p_bad.fragment_offset);
    assert_eq!(p_good.ttl, p_bad.ttl);
    assert_eq!(p_good.protocol, p_bad.protocol);
    assert_eq!(p_good.source_ip, p_bad.source_ip);
    assert_eq!(p_good.dest_ip, p_bad.dest_ip);
    assert_eq!(p_good.payload, p_bad.payload);
    assert_ne!(p_good.header_checksum, p_bad.header_checksum);
}

#[test]
fn ipv4_flags_and_fragment_offset_are_split() {
    let mut data: [u8; 20] = [0; 20];
    data[0] = 0x45;
    data[3] = 20;
    // flags 0b010 (don't fragment), fragment offset 0x1234
    data[6] = 0x40 | 0x12;
    data[7] = 0x34;
    let p = IPv4Packet::try_from(&data[..]).unwrap();
    assert_eq!(p.flags, 0b010);
    assert_eq!(p.fragment_offset, 0x1234);
}

#[test]
fn decode_twice_yields_equal_results() {
    let frame: [u8; 16] = [
        0, 1, 2, 3, 4, 5, 6, 7, 8, 9, 10, 11, 0x08, 0x00, 0xaa, 0xbb,
    ];
    let a = EthernetPacket::try_from(&frame[..]).unwrap();
    let b = EthernetPacket::try_from(&frame[..]).unwrap();
    assert_eq!(a, b);

    let datagram: [u8; 24] = [
        0x45, 0x00, 0x00, 0x18, 0x1c, 0x46, 0x40, 0x00, 0x40, 0x06, 0xb1, 0xe6, 0xc0, 0xa8,
        0x00, 0x01, 0xc0, 0xa8, 0x00, 0xc7, 0xde, 0xad, 0xbe, 0xef,
    ];
    let a = IPv4Packet::try_from(&datagram[..]).unwrap();
    let b = IPv4Packet::try_from(&datagram[..]).unwrap();
    assert_eq!(a, b);
}
