use mocopi_parser::parse;
use mocopi_parser::parse_bones;
use mocopi_parser::parse_head;
use mocopi_parser::parse_info;
use mocopi_parser::parse_trans;
use mocopi_parser::parse_value;
use mocopi_parser::DecodeError;
use mocopi_parser::SkeletonOrFrame;

/// Build one chunk: 4-byte little-endian length, 4 tag bytes, payload.
fn chunk(tag: &[u8; 4], payload: &[u8]) -> Vec<u8> {
    let mut out = Vec::new();
    out.extend_from_slice(&(payload.len() as u32).to_le_bytes());
    out.extend_from_slice(tag);
    out.extend_from_slice(payload);
    out
}

/// A 28-byte transform payload from seven floats.
fn trans_payload(vals: [f32; 7]) -> Vec<u8> {
    let mut out = Vec::new();
    for v in vals {
        out.extend_from_slice(&v.to_le_bytes());
    }
    out
}

/// One bone entry chunk: id, parent id, transform.
fn bone_entry(id: u16, parent: u16, vals: [f32; 7]) -> Vec<u8> {
    let mut payload = chunk(b"bnid", &id.to_le_bytes());
    payload.extend_from_slice(&chunk(b"pbid", &parent.to_le_bytes()));
    payload.extend_from_slice(&chunk(b"tran", &trans_payload(vals)));
    chunk(b"bndt", &payload)
}

/// One bone-transform entry chunk: id, transform.
fn bone_trans_entry(id: u16, vals: [f32; 7]) -> Vec<u8> {
    let mut payload = chunk(b"bnid", &id.to_le_bytes());
    payload.extend_from_slice(&chunk(b"tran", &trans_payload(vals)));
    chunk(b"btdt", &payload)
}

/// A head chunk with the given format text and version.
fn head_chunk(format: &[u8], ver: u8) -> Vec<u8> {
    let mut payload = chunk(b"ftyp", format);
    payload.extend_from_slice(&chunk(b"vrsn", &[ver]));
    chunk(b"head", &payload)
}

/// An info chunk with the given address and port.
fn info_chunk(addr: u64, port: u16) -> Vec<u8> {
    let mut payload = chunk(b"ipad", &addr.to_le_bytes());
    payload.extend_from_slice(&chunk(b"rcvp", &port.to_le_bytes()));
    chunk(b"sndf", &payload)
}

#[test]
fn test_parse_value() {
    let raw = [
        0x04, 0x00, 0x00, 0x00,
        0x62, 0x6e, 0x64, 0x74,
        0x02, 0x00, 0x00, 0x00,
        0x01, 0x00, 0x00, 0x00,
    ];

    let data = parse_value(&raw).unwrap();

    assert_eq!(data.len, 4);
    assert_eq!(data.name, "bndt");
    assert_eq!(data.data, [0x02, 0x00, 0x00, 0x00]);
    assert_eq!(data.rem, [0x01, 0x00, 0x00, 0x00]);
}

#[test]
fn test_parse_trans() {
    let raw = [
        0x1c, 0x00, 0x00, 0x00,

        0x74, 0x72, 0x61, 0x6e,

        0x00, 0x00, 0x9c, 0xa2,
        0x00, 0xc0, 0xfe, 0xa4,
        0x00, 0x00, 0xd0, 0xa3,
        0x00, 0x00, 0x80, 0x3f,

        0x17, 0x56, 0x03, 0xbc,
        0x7c, 0x48, 0xd0, 0xbd,
        0x0c, 0xa8, 0x03, 0x3e,
    ];

    let (len, data) = parse_trans(&raw).unwrap();

    assert_eq!(len, 28);

    assert_eq!(f32::from_bits(data.rot.x), -4.22838847e-18);
    assert_eq!(f32::from_bits(data.rot.y), -1.104802e-16);
    assert_eq!(f32::from_bits(data.rot.z), -2.25514052e-17);
    assert_eq!(f32::from_bits(data.rot.w), 1.0);

    assert_eq!(f32::from_bits(data.pos.x), -0.008016131);
    assert_eq!(f32::from_bits(data.pos.y), -0.101700753);
    assert_eq!(f32::from_bits(data.pos.z), 0.128570735);
}

#[test]
fn transform_slots_decode_exact_ieee_values() {
    // The bytes 00 00 80 3F decode to exactly 1.0 in every one of the
    // seven slots.
    let mut payload = Vec::new();
    for _ in 0..7 {
        payload.extend_from_slice(&[0x00, 0x00, 0x80, 0x3f]);
    }
    let raw = chunk(b"tran", &payload);
    let (len, t) = parse_trans(&raw).unwrap();
    assert_eq!(len, 28);
    for bits in [t.rot.x, t.rot.y, t.rot.z, t.rot.w, t.pos.x, t.pos.y, t.pos.z] {
        assert_eq!(f32::from_bits(bits), 1.0);
    }
}

#[test]
fn truncated_chunk_fails_with_truncated() {
    // Declared length runs past the end of the buffer.
    let raw = [0x64, 0x00, 0x00, 0x00, 0x62, 0x6e, 0x64, 0x74, 0x01, 0x02];
    assert_eq!(parse_value(&raw).unwrap_err(), DecodeError::Truncated);
    // Shorter than the eight header bytes.
    assert_eq!(parse_value(&[1, 2, 3]).unwrap_err(), DecodeError::Truncated);
    // The whole decode reports the same failure.
    assert_eq!(parse(&raw).unwrap_err(), DecodeError::Truncated);
}

#[test]
fn invalid_tag_bytes_fail_with_invalid_tag() {
    let raw = [0x00, 0x00, 0x00, 0x00, 0xff, 0xfe, 0x61, 0x62];
    assert_eq!(parse_value(&raw).unwrap_err(), DecodeError::InvalidTag);
}

#[test]
fn invalid_format_text_fails_with_invalid_utf8() {
    let mut payload = chunk(b"ftyp", &[0xff, 0xfe]);
    payload.extend_from_slice(&chunk(b"vrsn", &[1]));
    let raw = chunk(b"head", &payload);
    assert_eq!(parse_head(&raw).unwrap_err(), DecodeError::InvalidUtf8);
}

#[test]
fn multibyte_format_text_decodes() {
    let raw = head_chunk("héad²".as_bytes(), 3);
    let (_, head) = parse_head(&raw).unwrap();
    assert_eq!(head.format, "héad²");
    assert_eq!(head.ver, 3);
}

#[test]
fn empty_version_payload_fails_with_field_size_mismatch() {
    let mut payload = chunk(b"ftyp", b"mcp");
    payload.extend_from_slice(&chunk(b"vrsn", &[]));
    let raw = chunk(b"head", &payload);
    assert_eq!(parse_head(&raw).unwrap_err(), DecodeError::FieldSizeMismatch(1));
}

#[test]
fn wrong_address_width_fails_with_field_size_mismatch() {
    let mut payload = chunk(b"ipad", &[1, 2, 3, 4]);
    payload.extend_from_slice(&chunk(b"rcvp", &[0, 1]));
    let raw = chunk(b"sndf", &payload);
    assert_eq!(parse_info(&raw).unwrap_err(), DecodeError::FieldSizeMismatch(8));
}

#[test]
fn wrong_transform_width_fails_with_field_size_mismatch() {
    let raw = chunk(b"tran", &[0u8; 27]);
    assert_eq!(parse_trans(&raw).unwrap_err(), DecodeError::FieldSizeMismatch(28));
}

#[test]
fn info_chunk_decodes_address_and_port() {
    let raw = info_chunk(0x0102030405060708, 12351);
    let (_, info) = parse_info(&raw).unwrap();
    assert_eq!(info.addr, 0x0102030405060708);
    assert_eq!(info.port, 12351);
}

#[test]
fn wrong_port_width_fails_with_field_size_mismatch() {
    let mut payload = chunk(b"ipad", &7u64.to_le_bytes());
    payload.extend_from_slice(&chunk(b"rcvp", &[1, 2, 3]));
    let raw = chunk(b"sndf", &payload);
    assert_eq!(parse_info(&raw).unwrap_err(), DecodeError::FieldSizeMismatch(2));
}

#[test]
fn wrong_frame_number_width_fails_with_field_size_mismatch() {
    let mut fram_payload = chunk(b"fnum", &[7, 0]);
    fram_payload.extend_from_slice(&chunk(b"time", &1000u32.to_le_bytes()));
    fram_payload.extend_from_slice(&chunk(b"btrs", &[]));
    let body = chunk(b"fram", &fram_payload);
    let mut datagram = head_chunk(b"mcpf", 1);
    datagram.extend_from_slice(&info_chunk(1, 2));
    datagram.extend_from_slice(&body);
    assert_eq!(parse(&datagram).unwrap_err(), DecodeError::FieldSizeMismatch(4));
}

#[test]
fn invalid_tag_inside_list_propagates_invalid_tag() {
    // The child chunk fits the declared length but carries a tag that is
    // not UTF-8: the failure is InvalidTag, not MalformedList.
    let mut child = chunk(b"bndt", &[]);
    child[4] = 0xff;
    child[5] = 0xfe;
    let raw = chunk(b"bons", &child);
    assert_eq!(parse_bones(&raw).unwrap_err(), DecodeError::InvalidTag);
}

#[test]
fn broken_skeleton_body_fails_rather_than_decoding_as_frame() {
    // The body carries the skeleton tag, so it must decode as a skeleton
    // section; its broken bone list is an error, not a frame packet.
    let body = chunk(b"skdf", &[1, 2, 3]);
    let mut datagram = head_chunk(b"mcpf", 1);
    datagram.extend_from_slice(&info_chunk(1, 2));
    datagram.extend_from_slice(&body);
    assert_eq!(parse(&datagram).unwrap_err(), DecodeError::Truncated);
}

#[test]
fn bone_list_that_does_not_tile_fails_with_malformed_list() {
    // A valid child followed by four stray bytes: no run of chunks can
    // consume the declared length exactly.
    let mut bons_payload = bone_entry(1, 0, [0.0; 7]);
    bons_payload.extend_from_slice(&[0, 0, 0, 0]);
    let raw = chunk(b"bons", &bons_payload);
    assert_eq!(parse_bones(&raw).unwrap_err(), DecodeError::MalformedList);
}

#[test]
fn empty_bone_list_decodes_to_no_bones() {
    let raw = chunk(b"bons", &[]);
    let (len, bones) = parse_bones(&raw).unwrap();
    assert_eq!(len, 0);
    assert_eq!(bones.len(), 0);
}

#[test]
fn bone_list_children_tile_declared_length_exactly() {
    // Re-summing each child's declared length plus the eight header
    // bytes gives the parent's declared length.
    let e1 = bone_entry(1, 0, [0.5; 7]);
    let e2 = bone_entry(2, 1, [0.25; 7]);
    let mut bons_payload = e1.clone();
    bons_payload.extend_from_slice(&e2);
    let raw = chunk(b"bons", &bons_payload);
    let (len, bones) = parse_bones(&raw).unwrap();
    assert_eq!(bones.len(), 2);
    let child_len = |c: &[u8]| u32::from_le_bytes([c[0], c[1], c[2], c[3]]);
    assert_eq!(child_len(&e1) + 8 + child_len(&e2) + 8, len);
    assert_eq!(len as usize, bons_payload.len());
    assert_eq!(bones[0].id, 1);
    assert_eq!(bones[1].id, 2);
}

#[test]
fn skeleton_datagram_round_trip() {
    // Two bones: ids 0 and 1, bone 1's parent is bone 0.
    let t0 = [1.0f32, 0.0, 0.0, 0.0, 0.125, -2.5, 3.75];
    let t1 = [0.0f32, 1.0, 0.0, 0.0, -0.5, 0.25, 9.0];
    let mut bons_payload = bone_entry(0, 0, t0);
    bons_payload.extend_from_slice(&bone_entry(1, 0, t1));
    let bons = chunk(b"bons", &bons_payload);
    let body = chunk(b"skdf", &bons);

    let mut datagram = head_chunk(b"mcpf", 1);
    datagram.extend_from_slice(&info_chunk(0xc0a80a01, 12351));
    datagram.extend_from_slice(&body);

    let packet = match parse(&datagram).unwrap() {
        SkeletonOrFrame::Skeleton(p) => p,
        SkeletonOrFrame::Frame(_) => panic!("expected a skeleton packet"),
    };
    assert_eq!(packet.head.format, "mcpf");
    assert_eq!(packet.head.ver, 1);
    assert_eq!(packet.info.addr, 0xc0a80a01);
    assert_eq!(packet.info.port, 12351);
    assert_eq!(packet.skeleton.bones.len(), 2);

    let b0 = &packet.skeleton.bones[0];
    assert_eq!(b0.id, 0);
    assert_eq!(b0.parent, 0);
    let got0 = [
        b0.trans.rot.x, b0.trans.rot.y, b0.trans.rot.z, b0.trans.rot.w,
        b0.trans.pos.x, b0.trans.pos.y, b0.trans.pos.z,
    ];
    for (bits, expect) in got0.iter().zip(t0.iter()) {
        assert_eq!(f32::from_bits(*bits), *expect);
    }

    let b1 = &packet.skeleton.bones[1];
    assert_eq!(b1.id, 1);
    assert_eq!(b1.parent, 0);
    let got1 = [
        b1.trans.rot.x, b1.trans.rot.y, b1.trans.rot.z, b1.trans.rot.w,
        b1.trans.pos.x, b1.trans.pos.y, b1.trans.pos.z,
    ];
    for (bits, expect) in got1.iter().zip(t1.iter()) {
        assert_eq!(f32::from_bits(*bits), *expect);
    }
}

#[test]
fn frame_datagram_round_trip() {
    // num=7, time=1000, one bone-transform entry with id 3.
    let mut fram_payload = chunk(b"fnum", &7u32.to_le_bytes());
    fram_payload.extend_from_slice(&chunk(b"time", &1000u32.to_le_bytes()));
    let btrs_payload = bone_trans_entry(3, [0.0f32, 0.0, 0.0, 1.0, 0.5, -0.5, 2.0]);
    fram_payload.extend_from_slice(&chunk(b"btrs", &btrs_payload));
    let body = chunk(b"fram", &fram_payload);

    let mut datagram = head_chunk(b"mcpf", 2);
    datagram.extend_from_slice(&info_chunk(7, 80));
    datagram.extend_from_slice(&body);

    let packet = match parse(&datagram).unwrap() {
        SkeletonOrFrame::Frame(p) => p,
        SkeletonOrFrame::Skeleton(_) => panic!("expected a frame packet"),
    };
    assert_eq!(packet.head.ver, 2);
    assert_eq!(packet.frame.num, 7);
    assert_eq!(packet.frame.time, 1000);
    assert_eq!(packet.frame.bones.len(), 1);
    assert_eq!(packet.frame.bones[0].id, 3);
    assert_eq!(f32::from_bits(packet.frame.bones[0].trans.rot.w), 1.0);
    assert_eq!(f32::from_bits(packet.frame.bones[0].trans.pos.z), 2.0);
}

#[test]
fn malformed_datagram_never_panics() {
    // Every prefix of a valid datagram either decodes or returns an
    // error; none may panic or read out of bounds.
    let mut datagram = head_chunk(b"mcpf", 1);
    datagram.extend_from_slice(&info_chunk(1, 2));
    let bons = chunk(b"bons", &bone_entry(0, 0, [0.0; 7]));
    datagram.extend_from_slice(&chunk(b"skdf", &bons));
    for cut in 0..datagram.len() {
        let _ = parse(&datagram[..cut]);
    }
    assert!(parse(&datagram).is_ok());
}
