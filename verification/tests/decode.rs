use usb2snes_core::decode::{
    feature_string, parse_get_response, parse_info_response, parse_ls_response_internal,
    version_string, DecodeError,
};

fn info_response(version: u32, firmware: &[u8], program: &[u8], features: u8) -> Vec<u8> {
    let mut packet = vec![0u8; 512];
    packet[..5].copy_from_slice(&[0x55, 0x53, 0x42, 0x41, 15]);
    packet[6] = features;
    packet[16..16 + program.len()].copy_from_slice(program);
    packet[256..260].copy_from_slice(&version.to_be_bytes());
    packet[260..260 + firmware.len()].copy_from_slice(firmware);
    packet
}

fn entry(kind: u8, name: &str) -> (u8, String) {
    (kind, name.to_string())
}

#[test]
fn info_version_is_upper_hex_without_leading_zeros() {
    let info = parse_info_response(info_response(0x0001_0203, b"", b"", 0)).unwrap();
    assert_eq!(info[1], "10203");
    let info = parse_info_response(info_response(0, b"", b"", 0)).unwrap();
    assert_eq!(info[1], "");
    let info = parse_info_response(info_response(0xdead_beef, b"", b"", 0)).unwrap();
    assert_eq!(info[1], "DEADBEEF");
}

#[test]
fn version_is_rendered_as_the_standard_library_renders_it() {
    for version in [1u32, 9, 10, 15, 16, 255, 256, 0xabc, 0x10203, 0x8000_0000, u32::MAX] {
        assert_eq!(version_string(version), format!("{:X}", version));
    }
    assert_eq!(version_string(0), "");
}

#[test]
fn info_has_five_fields() {
    let info =
        parse_info_response(info_response(0x0b, b"sd2snes Mk.III", b"/games/zelda.sfc", 0x0a))
            .unwrap();
    assert_eq!(
        info,
        vec![
            "sd2snes Mk.III".to_string(),
            "B".to_string(),
            "/games/zelda.sfc".to_string(),
            "ST0010|MSU1".to_string(),
            String::new(),
        ]
    );
}

#[test]
fn info_names_end_at_the_first_zero() {
    let mut packet = info_response(1, b"abc\0def", b"x\0y", 0);
    let info = parse_info_response(packet.clone()).unwrap();
    assert_eq!(info[0], "abc");
    assert_eq!(info[2], "x");
    packet[16] = 0;
    packet[260] = 0;
    let info = parse_info_response(packet).unwrap();
    assert_eq!(info[0], "");
    assert_eq!(info[2], "");
}

#[test]
fn info_names_run_to_the_end_without_a_zero() {
    let mut packet = vec![b'z'; 512];
    packet[6] = 0;
    let info = parse_info_response(packet.clone()).unwrap();
    assert_eq!(info[0], "z".repeat(252));
    assert_eq!(info[2], "z".repeat(496));
    assert_eq!(info[1], "7A7A7A7A");
    packet.extend_from_slice(b"tail\0more");
    let info = parse_info_response(packet).unwrap();
    assert_eq!(info[0], format!("{}tail", "z".repeat(252)));
    assert_eq!(info[2], format!("{}tail", "z".repeat(496)));
}

#[test]
fn info_replaces_what_is_no_utf8() {
    let info =
        parse_info_response(info_response(1, &[b'f', 0xff, b'w'], &[0xc3, 0xa9, 0xc3], 0)).unwrap();
    assert_eq!(info[0], "f\u{fffd}w");
    assert_eq!(info[2], "é\u{fffd}");
}

#[test]
fn info_features_are_joined_in_bit_order() {
    let names = [
        "DSPX",
        "ST0010",
        "SRTC",
        "MSU1",
        "0x213F",
        "CMD_UNLOCK",
        "USB1",
        "DMA1",
    ];
    for features in 0..=255u8 {
        let expected: Vec<&str> =
            (0..8).filter(|bit| features & (1 << bit) != 0).map(|bit| names[bit]).collect();
        assert_eq!(feature_string(features), expected.join("|"));
        let info = parse_info_response(info_response(0, b"", b"", features)).unwrap();
        assert_eq!(info[3], expected.join("|"));
        assert_eq!(info[4], "");
    }
    assert_eq!(feature_string(0), "");
    assert_eq!(feature_string(0x81), "DSPX|DMA1");
    assert_eq!(feature_string(0x09), "DSPX|MSU1");
    assert_eq!(feature_string(0x10), "0x213F");
    assert_eq!(
        feature_string(0xff),
        "DSPX|ST0010|SRTC|MSU1|0x213F|CMD_UNLOCK|USB1|DMA1"
    );
}

#[test]
fn info_needs_a_whole_packet() {
    for len in [0usize, 1, 260, 511] {
        assert_eq!(
            parse_info_response(vec![0x41; len]),
            Err(DecodeError::TruncatedResponse { needed: 512, actual: len })
        );
    }
    assert!(parse_info_response(vec![0x41; 512]).is_ok());
    assert!(parse_info_response(vec![0x41; 600]).is_ok());
}

#[test]
fn size_is_read_big_endian_at_252() {
    let mut packet = vec![0u8; 512];
    packet[252..256].copy_from_slice(&[0x00, 0x10, 0x00, 0x00]);
    assert_eq!(parse_get_response(packet), Ok(0x0010_0000));
    let mut packet = vec![0xaa; 256];
    packet[252..256].copy_from_slice(&[0x01, 0x02, 0x03, 0x04]);
    assert_eq!(parse_get_response(packet), Ok(0x0102_0304));
    assert_eq!(parse_get_response(vec![0xff; 300]), Ok(u32::MAX));
}

#[test]
fn size_needs_256_bytes() {
    for len in [0usize, 4, 252, 255] {
        assert_eq!(
            parse_get_response(vec![0; len]),
            Err(DecodeError::TruncatedResponse { needed: 256, actual: len })
        );
    }
    assert_eq!(parse_get_response(vec![0; 256]), Ok(0));
}

#[test]
fn size_is_the_address_that_a_get_request_carries() {
    let request =
        usb2snes_core::build_request(0, 0, 0, Some(vec!["f50123".to_string(), "40".to_string()]))
            .unwrap();
    assert_eq!(parse_get_response(request.to_vec()), Ok(0xf5_0123));
}

#[test]
fn listing_stops_at_a_type_byte_of_zero() {
    let mut buffer = vec![1, b'a', b'/', 0, 0, b'b', b'.', b't', b'x', b't', 0, 0xff];
    buffer.resize(512, 0);
    assert_eq!(parse_ls_response_internal(&buffer), vec![entry(1, "a/")]);
}

#[test]
fn listing_keeps_the_order_and_the_type_bytes() {
    let mut buffer = Vec::new();
    buffer.extend_from_slice(b"\x01roms\0");
    buffer.extend_from_slice(b"\x02b.txt\0");
    buffer.extend_from_slice(b"\x01saves\0");
    buffer.push(0xff);
    buffer.extend_from_slice(b"\x01never\0");
    buffer.resize(512, 0);
    assert_eq!(
        parse_ls_response_internal(&buffer),
        vec![entry(1, "roms"), entry(2, "b.txt"), entry(1, "saves")]
    );
}

#[test]
fn listing_leaves_out_dot_and_dot_dot() {
    let mut buffer = Vec::new();
    buffer.extend_from_slice(b"\x01.\0\x01..\0\x01...\0\x01.a\0\x01a.\0");
    buffer.push(0xff);
    assert_eq!(
        parse_ls_response_internal(&buffer),
        vec![entry(1, "..."), entry(1, ".a"), entry(1, "a.")]
    );
}

#[test]
fn listing_leaves_out_entries_without_a_name() {
    let buffer = b"\x01\0\x01x\0\x03\0\x01y\0\xff".to_vec();
    assert_eq!(parse_ls_response_internal(&buffer), vec![entry(1, "x"), entry(1, "y")]);
}

#[test]
fn listing_of_nothing_is_empty() {
    assert_eq!(parse_ls_response_internal(&[]), Vec::<(u8, String)>::new());
    assert_eq!(parse_ls_response_internal(&[0]), Vec::<(u8, String)>::new());
    assert_eq!(parse_ls_response_internal(&[0xff, 1, b'a', 0]), Vec::<(u8, String)>::new());
    assert_eq!(parse_ls_response_internal(&[1]), Vec::<(u8, String)>::new());
    assert_eq!(parse_ls_response_internal(&[0u8; 512]), Vec::<(u8, String)>::new());
}

#[test]
fn listing_takes_a_name_that_the_buffer_cuts() {
    assert_eq!(parse_ls_response_internal(b"\x01abc"), vec![entry(1, "abc")]);
    assert_eq!(parse_ls_response_internal(b"\x01a\0\x01"), vec![entry(1, "a")]);
    assert_eq!(parse_ls_response_internal(b"\x01a\0\x01b"), vec![entry(1, "a"), entry(1, "b")]);
}

#[test]
fn listing_looks_at_type_bytes_in_the_first_packet_only() {
    let mut buffer = Vec::new();
    buffer.push(1);
    buffer.extend_from_slice(&[b'n'; 509]);
    buffer.push(0);
    assert_eq!(buffer.len(), 511);
    buffer.extend_from_slice(b"\x01last\0\x01beyond\0");
    assert_eq!(
        parse_ls_response_internal(&buffer),
        vec![entry(1, &"n".repeat(509)), entry(1, "last")]
    );

    let mut buffer = Vec::new();
    buffer.push(1);
    buffer.extend_from_slice(&[b'n'; 510]);
    buffer.push(0);
    assert_eq!(buffer.len(), 512);
    buffer.extend_from_slice(b"\x01beyond\0");
    assert_eq!(parse_ls_response_internal(&buffer), vec![entry(1, &"n".repeat(510))]);

    let mut buffer = Vec::new();
    buffer.push(1);
    buffer.extend_from_slice(&[b'n'; 600]);
    buffer.extend_from_slice(b"\0\x01beyond\0");
    assert_eq!(parse_ls_response_internal(&buffer), vec![entry(1, &"n".repeat(600))]);
}

#[test]
fn listing_replaces_what_is_no_utf8() {
    let buffer = [1, b'a', 0xff, b'b', 0, 1, 0xc3, 0xa9, 0, 1, 0x2e, 0xff, 0, 0xff];
    assert_eq!(
        parse_ls_response_internal(&buffer),
        vec![entry(1, "a\u{fffd}b"), entry(1, "é"), entry(1, ".\u{fffd}")]
    );
}
