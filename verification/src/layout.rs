//! Where things are in a packet.

use vstd::prelude::*;

verus! {

/// Every packet, request or response, has this many bytes.
pub const PACKET_SIZE: usize = 512;

/// The four bytes that open every packet: `USBA` in ASCII.
pub const MAGIC_0: u8 = 0x55;

pub const MAGIC_1: u8 = 0x53;

pub const MAGIC_2: u8 = 0x42;

pub const MAGIC_3: u8 = 0x41;

/// Offset of the opcode byte.
pub const OPCODE_OFFSET: usize = 4;

/// Offset of the space selector.
pub const SPACE_OFFSET: usize = 5;

/// Offset of the flag byte. In a response to INFO it holds the feature bits.
pub const FLAGS_OFFSET: usize = 6;

/// Offset of the first path of a request.
pub const PATH_OFFSET: usize = 8;

/// A first path longer than this is cut.
pub const PATH_LIMIT: usize = 247;

/// Offset of the name of the running program in a response to INFO.
pub const PROGRAM_OFFSET: usize = 16;

/// Offset of the first `(size, address)` pair of a vector request.
pub const PAIRS_OFFSET: usize = 32;

/// Bytes that one `(size, address)` pair takes.
pub const PAIR_SIZE: usize = 5;

/// Offset of the address of a transfer request, and of the size in its response.
pub const ADDRESS_OFFSET: usize = 252;

/// Offset of the second path of a rename request.
pub const SECOND_PATH_OFFSET: usize = 256;

/// A second path longer than this is cut.
pub const SECOND_PATH_LIMIT: usize = 255;

/// Offset of the version number in a response to INFO.
pub const VERSION_OFFSET: usize = 256;

/// Offset of the firmware name in a response to INFO.
pub const FIRMWARE_OFFSET: usize = 260;

/// Flag bit of a request that the device does not answer.
pub const NO_RESPONSE: u8 = 0x40;

/// The opcode byte of every packet that the device sends.
pub const RESPONSE_OPCODE: u8 = 15;

/// The magic tag as a sequence.
pub open spec fn magic() -> Seq<u8> {
    seq![MAGIC_0, MAGIC_1, MAGIC_2, MAGIC_3]
}

/// A packet of zeros.
pub open spec fn blank() -> Seq<u8> {
    Seq::new(PACKET_SIZE as nat, |i: int| 0u8)
}

/// `packet` with `data` written over it from offset `at` on. What would fall
/// behind the end of `packet` is dropped.
pub open spec fn overlay(packet: Seq<u8>, at: int, data: Seq<u8>) -> Seq<u8> {
    Seq::new(
        packet.len(),
        |i: int|
            if at <= i < at + data.len() {
                data[i - at]
            } else {
                packet[i]
            },
    )
}

/// The four bytes of `value`, most significant first.
pub open spec fn be32(value: u32) -> Seq<u8> {
    seq![
        (value / 0x100_0000) as u8,
        (value / 0x1_0000 % 0x100) as u8,
        (value / 0x100 % 0x100) as u8,
        (value % 0x100) as u8,
    ]
}

/// The number whose four bytes, most significant first, start at `at`.
pub open spec fn be32_at(bytes: Seq<u8>, at: int) -> int {
    bytes[at] * 0x100_0000 + bytes[at + 1] * 0x1_0000 + bytes[at + 2] * 0x100 + bytes[at + 3]
}

/// Splits `value` into its four bytes, most significant first.
pub fn be32_bytes(value: u32) -> (bytes: [u8; 4])
    ensures
        bytes@ == be32(value),
{
    let b0: u8 = (value >> 24) as u8;
    let b1: u8 = ((value >> 16) & 0xff) as u8;
    let b2: u8 = ((value >> 8) & 0xff) as u8;
    let b3: u8 = (value & 0xff) as u8;
    assert(value >> 24 == value / 0x100_0000 && (value >> 24) < 0x100) by (bit_vector);
    assert((value >> 16) & 0xff == value / 0x1_0000 % 0x100) by (bit_vector);
    assert((value >> 8) & 0xff == value / 0x100 % 0x100) by (bit_vector);
    assert(value & 0xff == value % 0x100) by (bit_vector);
    let bytes = [b0, b1, b2, b3];
    assert(bytes@ =~= be32(value));
    bytes
}

/// Reads the number whose four bytes, most significant first, start at `at`.
pub(crate) fn read_be32(bytes: &[u8], at: usize) -> (value: u32)
    requires
        at + 4 <= bytes@.len(),
    ensures
        value == be32_at(bytes@, at as int),
{
    let b0: u32 = bytes[at] as u32;
    let b1: u32 = bytes[at + 1] as u32;
    let b2: u32 = bytes[at + 2] as u32;
    let b3: u32 = bytes[at + 3] as u32;
    assert((b0 << 24) | (b1 << 16) | (b2 << 8) | b3 == b0 * 0x100_0000 + b1 * 0x1_0000 + b2 * 0x100
        + b3) by (bit_vector)
        requires
            b0 < 0x100,
            b1 < 0x100,
            b2 < 0x100,
            b3 < 0x100,
    ;
    (b0 << 24) | (b1 << 16) | (b2 << 8) | b3
}

/// Writing a number as four bytes and reading them back gives the number.
pub proof fn lemma_be32_round_trip(value: u32, packet: Seq<u8>, at: int)
    requires
        0 <= at,
        at + 4 <= packet.len(),
    ensures
        be32_at(overlay(packet, at, be32(value)), at) == value,
{
    assert(value == (value / 0x100_0000) * 0x100_0000 + (value / 0x1_0000 % 0x100) * 0x1_0000 + (
    value / 0x100 % 0x100) * 0x100 + value % 0x100) by (bit_vector);
    assert(value / 0x100_0000 < 0x100) by (bit_vector);
}

} // verus!
