use vless_header::{parse_vless_header, DecodeError};

const ID: [u8; 16] = [
    0x00, 0x01, 0x02, 0x03, 0x04, 0x05, 0x06, 0x07, 0x08, 0x09, 0x0a, 0x0b, 0x0c, 0x0d, 0x0e,
    0x0f,
];

fn frame(id: [u8; 16], addon: &[u8], command: u8, port: [u8; 2], atype: u8, addr: &[u8]) -> Vec<u8> {
    let mut v = vec![0u8];
    v.extend_from_slice(&id);
    v.push(addon.len() as u8);
    v.extend_from_slice(addon);
    v.push(command);
    v.extend_from_slice(&port);
    v.push(atype);
    v.extend_from_slice(addr);
    v
}

#[test]
fn empty_buffer_too_small() {
    assert_eq!(parse_vless_header(&[]).err(), Some(DecodeError::BufferTooSmall));
}

#[test]
fn twenty_three_bytes_too_small() {
    let buf = vec![0u8; 23];
    assert_eq!(parse_vless_header(&buf).err(), Some(DecodeError::BufferTooSmall));
}

#[test]
fn decodes_minimal_ipv4_frame() {
    let buf = frame(ID, &[], 1, [0x1f, 0x90], 1, &[192, 168, 0, 1]);
    assert_eq!(buf.len(), 26);
    let h = parse_vless_header(&buf).unwrap();
    assert_eq!(h.uuid, "00010203-0405-0607-0809-0a0b0c0d0e0f");
    assert_eq!(h.command, 1);
    assert_eq!(h.address_type, 1);
    assert_eq!(h.address, "192.168.0.1");
    assert_eq!(h.port, 8080);
}

#[test]
fn decoding_is_deterministic() {
    let buf = frame(ID, &[], 1, [0x1f, 0x90], 1, &[10, 0, 0, 7]);
    let a = parse_vless_header(&buf).unwrap();
    let b = parse_vless_header(&buf).unwrap();
    assert_eq!(a.uuid, b.uuid);
    assert_eq!(a.command, b.command);
    assert_eq!(a.address_type, b.address_type);
    assert_eq!(a.address, b.address);
    assert_eq!(a.port, b.port);
}

#[test]
fn uuid_canonical_hyphenation() {
    let h = parse_vless_header(&frame([0xff; 16], &[], 1, [0, 0], 1, &[1, 2, 3, 4])).unwrap();
    assert_eq!(h.uuid, "ffffffff-ffff-ffff-ffff-ffffffffffff");
    assert_eq!(h.uuid.len(), 36);
    for (i, c) in h.uuid.chars().enumerate() {
        if i == 8 || i == 13 || i == 18 || i == 23 {
            assert_eq!(c, '-');
        } else {
            assert_ne!(c, '-');
        }
    }
}

#[test]
fn uuid_lowercase_hex_pairs() {
    let id = [
        0xde, 0xad, 0xbe, 0xef, 0x00, 0x11, 0x22, 0x33, 0x44, 0x55, 0x66, 0x77, 0x88, 0x99,
        0xaa, 0xbb,
    ];
    let h = parse_vless_header(&frame(id, &[], 2, [0, 1], 1, &[0, 0, 0, 0])).unwrap();
    assert_eq!(h.uuid, "deadbeef-0011-2233-4455-66778899aabb");
}

#[test]
fn ipv4_octets_rendered_decimal() {
    let h = parse_vless_header(&frame(ID, &[], 1, [0, 80], 1, &[255, 0, 10, 1])).unwrap();
    assert_eq!(h.address, "255.0.10.1");
}

#[test]
fn ipv6_all_zero_groups() {
    let h = parse_vless_header(&frame(ID, &[], 1, [0, 53], 3, &[0u8; 16])).unwrap();
    assert_eq!(h.address_type, 3);
    assert_eq!(h.address, "0:0:0:0:0:0:0:0");
}

#[test]
fn ipv6_groups_lowercase_unpadded() {
    let addr = [
        0x20, 0x01, 0x0d, 0xb8, 0x00, 0x00, 0x00, 0x00, 0x00, 0x00, 0x00, 0x00, 0x00, 0x00,
        0x00, 0x01,
    ];
    let h = parse_vless_header(&frame(ID, &[], 1, [0, 53], 3, &addr)).unwrap();
    assert_eq!(h.address, "2001:db8:0:0:0:0:0:1");
}

#[test]
fn domain_address_verbatim() {
    let h = parse_vless_header(&frame(ID, &[], 1, [1, 187], 2, &[7, b'e', b'x', b'a', b'm', b'p', b'l', b'e'])).unwrap();
    assert_eq!(h.address_type, 2);
    assert_eq!(h.address, "example");
    assert_eq!(h.port, 443);
}

#[test]
fn domain_multibyte_utf8_decoded() {
    let mut addr = vec![6u8];
    addr.extend_from_slice("caf\u{e9}!".as_bytes());
    assert_eq!(addr.len(), 7);
    let h = parse_vless_header(&frame(ID, &[], 1, [0, 1], 2, &addr)).unwrap();
    assert_eq!(h.address, "caf\u{e9}!");
    assert_eq!(h.address.chars().count(), 5);
}

#[test]
fn domain_invalid_utf8_is_utf8_error() {
    let h = parse_vless_header(&frame(ID, &[], 1, [0, 1], 2, &[2, 0xff, 0xfe]));
    assert_eq!(h.err(), Some(DecodeError::DomainUtf8Error));
}

#[test]
fn command_three_unsupported() {
    let h = parse_vless_header(&frame(ID, &[], 3, [0x1f, 0x90], 1, &[192, 168, 0, 1]));
    assert_eq!(h.err(), Some(DecodeError::UnsupportedCommand));
}

#[test]
fn command_zero_unsupported() {
    let h = parse_vless_header(&frame(ID, &[], 0, [0x1f, 0x90], 1, &[192, 168, 0, 1]));
    assert_eq!(h.err(), Some(DecodeError::UnsupportedCommand));
}

#[test]
fn udp_command_accepted() {
    let h = parse_vless_header(&frame(ID, &[], 2, [0, 53], 1, &[8, 8, 8, 8])).unwrap();
    assert_eq!(h.command, 2);
}

#[test]
fn address_type_four_invalid() {
    let h = parse_vless_header(&frame(ID, &[], 1, [0, 80], 4, &[1, 2, 3, 4]));
    assert_eq!(h.err(), Some(DecodeError::InvalidAddressType));
}

#[test]
fn address_type_zero_invalid() {
    let h = parse_vless_header(&frame(ID, &[], 1, [0, 80], 0, &[1, 2, 3, 4]));
    assert_eq!(h.err(), Some(DecodeError::InvalidAddressType));
}

#[test]
fn addon_bytes_skipped_uninterpreted() {
    let addon = [0xde, 0xad, 0xbe, 0xef, 0x01];
    let h = parse_vless_header(&frame(ID, &addon, 1, [0x00, 0x50], 1, &[127, 0, 0, 1])).unwrap();
    assert_eq!(h.command, 1);
    assert_eq!(h.port, 80);
    assert_eq!(h.address, "127.0.0.1");
}

#[test]
fn port_is_big_endian() {
    let h = parse_vless_header(&frame(ID, &[], 1, [0x04, 0xd2], 1, &[1, 1, 1, 1])).unwrap();
    assert_eq!(h.port, 1234);
}

#[test]
fn version_byte_ignored() {
    let mut buf = frame(ID, &[], 1, [0, 80], 1, &[1, 2, 3, 4]);
    buf[0] = 0xff;
    let h = parse_vless_header(&buf).unwrap();
    assert_eq!(h.command, 1);
    assert_eq!(h.address, "1.2.3.4");
}

#[test]
fn trailing_payload_ignored() {
    let mut buf = frame(ID, &[], 1, [0, 80], 1, &[1, 2, 3, 4]);
    buf.extend_from_slice(b"payload bytes that follow the header");
    let h = parse_vless_header(&buf).unwrap();
    assert_eq!(h.address, "1.2.3.4");
    assert_eq!(h.port, 80);
}

#[test]
fn truncated_inside_addon_block() {
    // 30 bytes in all, but the addon block claims 200 bytes: the command
    // byte is out of reach.
    let mut buf = frame(ID, &[], 1, [0, 80], 1, &[1, 2, 3, 4]);
    buf[17] = 200;
    let h = parse_vless_header(&buf);
    assert_eq!(h.err(), Some(DecodeError::InvalidCommandIndex));
}

#[test]
fn truncated_at_command_boundary() {
    let full = frame(ID, &[0u8; 10], 1, [0, 80], 1, &[1, 2, 3, 4]);
    // Keep the 18-byte prefix and the 10 addon bytes, drop the command byte.
    let h = parse_vless_header(&full[..28]);
    assert_eq!(h.err(), Some(DecodeError::InvalidCommandIndex));
}

#[test]
fn truncated_port_bytes() {
    let full = frame(ID, &[0u8; 10], 1, [0, 80], 1, &[1, 2, 3, 4]);
    assert_eq!(parse_vless_header(&full[..29]).err(), Some(DecodeError::MissingPort));
    assert_eq!(parse_vless_header(&full[..30]).err(), Some(DecodeError::MissingPort));
}

#[test]
fn truncated_address_type() {
    let full = frame(ID, &[0u8; 10], 1, [0, 80], 1, &[1, 2, 3, 4]);
    assert_eq!(parse_vless_header(&full[..31]).err(), Some(DecodeError::MissingAddressType));
}

#[test]
fn truncated_ipv4_bytes() {
    let full = frame(ID, &[], 1, [0, 80], 1, &[1, 2, 3, 4]);
    assert_eq!(parse_vless_header(&full[..25]).err(), Some(DecodeError::Ipv4BytesMissing));
}

#[test]
fn truncated_domain_length() {
    let full = frame(ID, &[0u8; 10], 1, [0, 80], 2, &[7, b'e', b'x', b'a', b'm', b'p', b'l', b'e']);
    // Cut right after the address-type byte: the domain-length byte is gone.
    assert_eq!(parse_vless_header(&full[..32]).err(), Some(DecodeError::DomainLengthMissing));
}

#[test]
fn truncated_domain_bytes() {
    let full = frame(ID, &[], 1, [0, 80], 2, &[7, b'e', b'x', b'a', b'm', b'p', b'l', b'e']);
    // One byte short of the seven the domain length announces.
    let h = parse_vless_header(&full[..full.len() - 1]);
    assert_eq!(h.err(), Some(DecodeError::DomainBytesMissing));
}

#[test]
fn truncated_ipv6_bytes() {
    let full = frame(ID, &[], 1, [0, 80], 3, &[0u8; 16]);
    let h = parse_vless_header(&full[..full.len() - 1]);
    assert_eq!(h.err(), Some(DecodeError::Ipv6BytesMissing));
}

#[test]
fn empty_domain_allowed() {
    // Two addon bytes pad the frame past the 24-byte minimum gate.
    let full = frame(ID, &[0u8; 2], 1, [0, 80], 2, &[0]);
    assert_eq!(full.len(), 25);
    let h = parse_vless_header(&full).unwrap();
    assert_eq!(h.address, "");
}

#[test]
fn zero_length_domain_frame_under_minimum() {
    // With no addon bytes a zero-length domain frame is 23 bytes: the
    // minimum-size gate rejects it before any field is read.
    let full = frame(ID, &[], 1, [0, 80], 2, &[0]);
    assert_eq!(full.len(), 23);
    assert_eq!(parse_vless_header(&full).err(), Some(DecodeError::BufferTooSmall));
}
