use nexa::packet::{Ipv4Packet, TcpPacket};

fn segment() -> TcpPacket {
    TcpPacket {
        src_port: 443,
        dst_port: 51000,
        seq_num: 0x0102_0304,
        ack_num: 0x0A0B_0C0D,
        flags: 0x18,
        window: 65535,
        payload: b"hi".to_vec(),
    }
}

/// RFC 1071: the ones-complement sum of all 16-bit words, checksum included, is 0xFFFF.
fn folds_to_ffff(bytes: &[u8]) -> bool {
    let mut sum: u32 = 0;
    for chunk in bytes.chunks(2) {
        let word = if chunk.len() == 2 { (chunk[0] as u32) << 8 | chunk[1] as u32 } else { (chunk[0] as u32) << 8 };
        sum += word;
    }
    while sum > 0xFFFF {
        sum = (sum & 0xFFFF) + (sum >> 16);
    }
    sum == 0xFFFF
}

#[test]
fn a_built_segment_parses_back() {
    let bytes = segment().build();
    assert_eq!(bytes.len(), 22);
    assert_eq!(&bytes[..4], &[0x01, 0xBB, 0xC7, 0x38]);
    assert_eq!(bytes[12], 0x50);
    assert_eq!(&bytes[16..20], &[0, 0, 0, 0]);
    let back = TcpPacket::parse(&bytes).unwrap();
    assert_eq!((back.src_port, back.dst_port, back.seq_num, back.ack_num), (443, 51000, 0x0102_0304, 0x0A0B_0C0D));
    assert_eq!((back.flags, back.window), (0x18, 65535));
    assert_eq!(back.payload, b"hi".to_vec());
}

#[test]
fn short_or_inconsistent_segments_are_refused() {
    assert!(TcpPacket::parse(&[0u8; 19]).is_none());
    let mut bytes = segment().build();
    bytes[12] = 0x40; // data offset 16 bytes
    assert!(TcpPacket::parse(&bytes).is_none());
    bytes[12] = 0xF0; // data offset 60 bytes, beyond the data
    assert!(TcpPacket::parse(&bytes).is_none());
}

#[test]
fn a_segment_in_an_ip_packet_carries_valid_checksums() {
    let packet = segment().build_with_ip(0xC612_00FE, 0x0A00_0001, 7);
    assert_eq!(packet.len(), 42);
    assert_eq!(packet[0], 0x45);
    assert_eq!(&packet[2..4], &[0, 42]);
    assert_eq!(&packet[4..6], &[0, 7]);
    assert_eq!(packet[8], 64);
    assert_eq!(packet[9], 6);
    assert!(folds_to_ffff(&packet[..20]), "IPv4 header checksum");
    let mut pseudo = Vec::new();
    pseudo.extend_from_slice(&packet[12..20]);
    pseudo.extend_from_slice(&[0, 6, 0, 22]);
    pseudo.extend_from_slice(&packet[20..]);
    assert!(folds_to_ffff(&pseudo), "TCP checksum over the pseudo header");
    let ip = Ipv4Packet::parse(&packet).unwrap();
    assert_eq!((ip.src_addr, ip.dst_addr, ip.protocol), (0xC612_00FE, 0x0A00_0001, 6));
    assert_eq!(ip.payload.len(), 22);
    assert!(Ipv4Packet::parse(&packet[..19]).is_none());
}
