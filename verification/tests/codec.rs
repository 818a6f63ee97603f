use std::num::IntErrorKind;
use usb2snes_core::codec::{
    build_request, ArgumentFault, ArgumentRef, EncodeError, Opcode, Schema,
};
use usb2snes_core::hex::{hex_digit_value, parse_hex, HexFault};

fn bad_number(opcode: u8, position: usize, fault: HexFault) -> EncodeError {
    EncodeError::InvalidArgument {
        opcode,
        argument: ArgumentRef::Position(position),
        fault: ArgumentFault::Number(fault),
    }
}

fn bad_count(opcode: u8) -> EncodeError {
    EncodeError::InvalidArgument {
        opcode,
        argument: ArgumentRef::List,
        fault: ArgumentFault::Count,
    }
}

fn fault_of(kind: &IntErrorKind) -> HexFault {
    match kind {
        IntErrorKind::Empty => HexFault::Empty,
        IntErrorKind::InvalidDigit => HexFault::InvalidDigit,
        IntErrorKind::PosOverflow => HexFault::TooLarge,
        other => panic!("{:?}", other),
    }
}

fn strings(items: &[&str]) -> Option<Vec<String>> {
    Some(items.iter().map(|s| s.to_string()).collect())
}

fn header(opcode: u8, space: u8, flags: u8) -> [u8; 512] {
    let mut packet = [0u8; 512];
    packet[..7].copy_from_slice(&[0x55, 0x53, 0x42, 0x41, opcode, space, flags]);
    packet
}

#[test]
fn requests_without_arguments_always_succeed() {
    for &opcode in &[8u8, 10, 11, 12, 13] {
        let packet = build_request(opcode, 1, 0x40, None).unwrap();
        assert_eq!(packet, header(opcode, 1, 0x40));
    }
}

#[test]
fn requests_without_arguments_do_not_depend_on_call_order() {
    let forward: Vec<[u8; 512]> =
        [8u8, 10, 11, 12, 13].iter().map(|&op| build_request(op, 2, 3, None).unwrap()).collect();
    let mut backward: Vec<[u8; 512]> =
        [13u8, 12, 11, 10, 8].iter().map(|&op| build_request(op, 2, 3, None).unwrap()).collect();
    backward.reverse();
    for (a, b) in forward.iter().zip(backward.iter()) {
        assert_eq!(a[..7], b[..7]);
        assert_eq!(a, b);
    }
}

#[test]
fn requests_without_arguments_ignore_what_they_are_given() {
    let plain = build_request(11, 0, 0, None).unwrap();
    assert_eq!(build_request(11, 0, 0, strings(&[])).unwrap(), plain);
    assert_eq!(build_request(11, 0, 0, strings(&["zz", "/roms"])).unwrap(), plain);
}

#[test]
fn get_places_the_address_at_252() {
    let packet = build_request(0, 1, 2, strings(&["100000", "10"])).unwrap();
    assert_eq!(packet[252..256], [0x00, 0x10, 0x00, 0x00]);
    let mut expected = header(0, 1, 2);
    expected[253] = 0x10;
    assert_eq!(packet, expected);
}

#[test]
fn put_places_the_address_like_get() {
    let packet = build_request(1, 0, 0, strings(&["f5A0b1C2", "0"])).unwrap();
    assert_eq!(packet[252..256], [0xf5, 0xa0, 0xb1, 0xc2]);
    assert_eq!(packet[4], 1);
}

#[test]
fn transfer_size_is_checked_and_not_written() {
    let small = build_request(0, 0, 0, strings(&["1", "1"])).unwrap();
    let large = build_request(0, 0, 0, strings(&["1", "ffffffff"])).unwrap();
    assert_eq!(small, large);
    assert_eq!(
        build_request(0, 0, 0, strings(&["1", "100000000"])),
        Err(bad_number(0, 1, HexFault::TooLarge))
    );
}

#[test]
fn transfer_ignores_arguments_after_the_second() {
    assert_eq!(
        build_request(0, 0, 0, strings(&["100000", "10", "what"])),
        build_request(0, 0, 0, strings(&["100000", "10"]))
    );
}

#[test]
fn vget_places_pairs_from_32() {
    let packet = build_request(2, 0, 0, strings(&["4", "f50000", "2", "7e0000"])).unwrap();
    assert_eq!(packet[32..37], [0x04, 0x00, 0xf5, 0x00, 0x00]);
    assert_eq!(packet[37..42], [0x02, 0x00, 0x7e, 0x00, 0x00]);
    let mut expected = header(2, 0, 0);
    expected[32..42].copy_from_slice(&[0x04, 0x00, 0xf5, 0, 0, 0x02, 0x00, 0x7e, 0, 0]);
    assert_eq!(packet, expected);
}

#[test]
fn vput_takes_eight_pairs() {
    let mut args = Vec::new();
    for i in 0..8u32 {
        args.push(format!("{:x}", i + 1));
        args.push(format!("{:x}", 0x01020300 + i));
    }
    let packet = build_request(3, 7, 0, Some(args)).unwrap();
    let mut expected = header(3, 7, 0);
    for i in 0..8usize {
        expected[32 + 5 * i..37 + 5 * i].copy_from_slice(&[i as u8 + 1, 1, 2, 3, i as u8]);
    }
    assert_eq!(packet, expected);
    assert_eq!(packet[71], 7);
    assert_eq!(packet[72], 0);
}

#[test]
fn vector_requests_check_the_number_of_arguments() {
    let bad = bad_count(2);
    for count in [0usize, 1, 3, 5, 15, 17, 18, 32] {
        let args: Vec<String> = (0..count).map(|_| "1".to_string()).collect();
        assert_eq!(build_request(2, 0, 0, Some(args.clone())), Err(bad), "{} arguments", count);
        assert_eq!(build_request(3, 0, 0, Some(args)), Err(bad_count(3)));
    }
    for count in [2usize, 4, 16] {
        let args: Vec<String> = (0..count).map(|_| "1".to_string()).collect();
        assert!(build_request(2, 0, 0, Some(args)).is_ok());
    }
}

#[test]
fn vector_request_without_a_list_misses_it() {
    assert_eq!(
        build_request(2, 0, 0, None),
        Err(EncodeError::MissingArgument { opcode: 2, argument: ArgumentRef::List })
    );
}

#[test]
fn vector_request_names_the_first_bad_argument() {
    let at = |i, fault| Err(bad_number(2, i, fault));
    assert_eq!(build_request(2, 0, 0, strings(&["100", "1"])), at(0, HexFault::TooLarge));
    assert_eq!(build_request(2, 0, 0, strings(&["ff", "1ffffffff"])), at(1, HexFault::TooLarge));
    assert_eq!(build_request(2, 0, 0, strings(&["1", "1", "", "zz"])), at(2, HexFault::Empty));
    assert_eq!(
        build_request(2, 0, 0, strings(&["1", "1", "2", "zz"])),
        at(3, HexFault::InvalidDigit)
    );
    assert_eq!(
        build_request(2, 0, 0, strings(&["x", "y", "2", "zz"])),
        at(0, HexFault::InvalidDigit)
    );
    assert!(build_request(2, 0, 0, strings(&["ff", "ffffffff"])).is_ok());
}

#[test]
fn ls_places_the_path_at_8() {
    let packet = build_request(4, 0, 0, strings(&["/roms"])).unwrap();
    assert_eq!(&packet[8..13], b"/roms");
    assert!(packet[13..].iter().all(|&b| b == 0));
    assert_eq!(packet[..8], [0x55, 0x53, 0x42, 0x41, 4, 0, 0, 0]);
}

#[test]
fn every_path_request_places_its_path() {
    for &opcode in &[4u8, 5, 6, 9] {
        let packet = build_request(opcode, 3, 1, strings(&["/a/b.sfc", "extra"])).unwrap();
        let mut expected = header(opcode, 3, 1);
        expected[8..16].copy_from_slice(b"/a/b.sfc");
        assert_eq!(packet, expected);
    }
}

#[test]
fn path_is_written_as_utf8() {
    let packet = build_request(5, 0, 0, strings(&["/é"])).unwrap();
    assert_eq!(packet[8..12], [b'/', 0xc3, 0xa9, 0]);
}

#[test]
fn path_is_cut_after_247_bytes() {
    let long = "x".repeat(300);
    let packet = build_request(4, 0, 0, Some(vec![long])).unwrap();
    assert!(packet[8..255].iter().all(|&b| b == b'x'));
    assert!(packet[255..].iter().all(|&b| b == 0));
    let exact = "y".repeat(247);
    let packet = build_request(4, 0, 0, Some(vec![exact])).unwrap();
    assert!(packet[8..255].iter().all(|&b| b == b'y'));
    assert_eq!(packet[255], 0);
}

#[test]
fn empty_path_leaves_the_header() {
    assert_eq!(build_request(6, 0, 0, strings(&[""])).unwrap(), header(6, 0, 0));
}

#[test]
fn mv_places_both_paths() {
    let packet = build_request(7, 0, 0, strings(&["/old.sfc", "/new.sfc"])).unwrap();
    let mut expected = header(7, 0, 0);
    expected[8..16].copy_from_slice(b"/old.sfc");
    expected[256..264].copy_from_slice(b"/new.sfc");
    assert_eq!(packet, expected);
}

#[test]
fn mv_cuts_both_paths() {
    let packet = build_request(7, 0, 0, Some(vec!["a".repeat(400), "b".repeat(400)])).unwrap();
    assert!(packet[8..255].iter().all(|&b| b == b'a'));
    assert_eq!(packet[255], 0);
    assert!(packet[256..511].iter().all(|&b| b == b'b'));
    assert_eq!(packet[511], 0);
}

#[test]
fn missing_arguments_are_named() {
    let missing =
        |opcode, i| Err(EncodeError::MissingArgument { opcode, argument: ArgumentRef::Position(i) });
    assert_eq!(build_request(0, 0, 0, None), missing(0, 0));
    assert_eq!(build_request(1, 0, 0, strings(&[])), missing(1, 1));
    assert_eq!(build_request(0, 0, 0, strings(&["10"])), missing(0, 1));
    assert_eq!(build_request(0, 0, 0, strings(&["zz"])), missing(0, 1));
    assert_eq!(build_request(4, 0, 0, None), missing(4, 0));
    assert_eq!(build_request(9, 0, 0, strings(&[])), missing(9, 0));
    assert_eq!(build_request(7, 0, 0, None), missing(7, 0));
    assert_eq!(build_request(7, 0, 0, strings(&[])), missing(7, 0));
    assert_eq!(build_request(7, 0, 0, strings(&["/a"])), missing(7, 1));
}

#[test]
fn invalid_numbers_are_named() {
    let invalid = |opcode, i, fault| Err(bad_number(opcode, i, fault));
    let digit = HexFault::InvalidDigit;
    assert_eq!(build_request(0, 0, 0, strings(&["xyz", "10"])), invalid(0, 0, digit));
    assert_eq!(build_request(0, 0, 0, strings(&["xyz", "zz"])), invalid(0, 0, digit));
    assert_eq!(build_request(1, 0, 0, strings(&["10", "zz"])), invalid(1, 1, digit));
    assert_eq!(
        build_request(0, 0, 0, strings(&["100000000", "1"])),
        invalid(0, 0, HexFault::TooLarge)
    );
    assert_eq!(build_request(0, 0, 0, strings(&["", "1"])), invalid(0, 0, HexFault::Empty));
    assert_eq!(build_request(0, 0, 0, strings(&["0x10", "1"])), invalid(0, 0, digit));
    assert_eq!(build_request(0, 0, 0, strings(&["+", "1"])), invalid(0, 0, digit));
}

#[test]
fn unknown_opcodes_are_refused() {
    for opcode in [14u8, 15, 16, 100, 255] {
        assert_eq!(
            build_request(opcode, 5, 6, strings(&["1", "2"])),
            Err(EncodeError::UnsupportedOpcode { opcode, space: 5, flags: 6 })
        );
    }
}

#[test]
fn opcodes_and_codes_agree() {
    let all = [
        (Opcode::Get, 0u8, Some(Schema::Transfer)),
        (Opcode::Put, 1, Some(Schema::Transfer)),
        (Opcode::VGet, 2, Some(Schema::Vector)),
        (Opcode::VPut, 3, Some(Schema::Vector)),
        (Opcode::Ls, 4, Some(Schema::Path)),
        (Opcode::Mkdir, 5, Some(Schema::Path)),
        (Opcode::Rm, 6, Some(Schema::Path)),
        (Opcode::Mv, 7, Some(Schema::Rename)),
        (Opcode::Reset, 8, Some(Schema::Bare)),
        (Opcode::Boot, 9, Some(Schema::Path)),
        (Opcode::PowerCycle, 10, Some(Schema::Bare)),
        (Opcode::Info, 11, Some(Schema::Bare)),
        (Opcode::MenuReset, 12, Some(Schema::Bare)),
        (Opcode::Stream, 13, Some(Schema::Bare)),
        (Opcode::Response, 15, None),
    ];
    for (opcode, code, schema) in all {
        assert_eq!(opcode.code(), code);
        assert_eq!(Opcode::from_code(code), Some(opcode));
        assert_eq!(opcode.schema(), schema);
    }
    assert_eq!(Opcode::from_code(14), None);
    for code in 16..=255u8 {
        assert_eq!(Opcode::from_code(code), None);
    }
}

#[test]
fn hexadecimal_numbers_are_read_as_the_standard_library_reads_them() {
    let samples = [
        "0", "1", "a", "F", "10", "ff", "FF", "fF", "100", "ffff", "100000", "7e0000", "f50000",
        "ffffffff", "FFFFFFFF", "100000000", "fffffffff", "00000000000000ff", "0000000100000000",
        "+1", "+ff", "+", "++1", "-1", "-", "", " ", " 1", "1 ", "0x10", "1_0", "g", "1g", "é",
        "１", "+0", "+00000000000000000000", "deadbeef", "DEADBEEF", "12 34", "fffffffffg",
        "fffffffg", "ffffffffg", "100000000g", "1ffg", "ffg", "fg", "100", "+100000000", "+g",
        "0000000000000000000000000g", "g100000000", "00ffffffff0", "ffffffff0", "-100000000",
    ];
    for s in samples {
        assert_eq!(
            parse_hex(s.as_bytes(), u32::MAX),
            u32::from_str_radix(s, 16).map_err(|e| fault_of(e.kind())),
            "{:?}",
            s
        );
        assert_eq!(
            parse_hex(s.as_bytes(), 0xff),
            u8::from_str_radix(s, 16).map(u32::from).map_err(|e| fault_of(e.kind())),
            "{:?}",
            s
        );
    }
}

#[test]
fn hexadecimal_numbers_have_exact_values() {
    assert_eq!(parse_hex(b"100000", u32::MAX), Ok(0x10_0000));
    assert_eq!(parse_hex(b"ffffffff", u32::MAX), Ok(u32::MAX));
    assert_eq!(parse_hex(b"ff", 0xff), Ok(255));
    assert_eq!(parse_hex(b"100", 0xff), Err(HexFault::TooLarge));
    assert_eq!(parse_hex(b"5", 4), Err(HexFault::TooLarge));
    assert_eq!(parse_hex(b"4", 4), Ok(4));
    assert_eq!(parse_hex(b"0", 0), Ok(0));
    assert_eq!(parse_hex(b"", 4), Err(HexFault::Empty));
    assert_eq!(parse_hex(b"+", 4), Err(HexFault::InvalidDigit));
    assert_eq!(parse_hex(b"4x", 4), Err(HexFault::InvalidDigit));
    assert_eq!(parse_hex(b"5x", 4), Err(HexFault::TooLarge));
    assert_eq!(parse_hex(b"x5", 4), Err(HexFault::InvalidDigit));
}

#[test]
fn hexadecimal_digits_have_their_values() {
    for b in 0..=255u8 {
        let expected = (b as char).to_digit(16).map(|d| d as u8);
        assert_eq!(hex_digit_value(b), expected);
    }
}
