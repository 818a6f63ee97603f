//! Reading the payload of a response.

use crate::hex::{push_upper_hex, upper_hex};
use crate::layout::{
    be32_at, read_be32, ADDRESS_OFFSET, FIRMWARE_OFFSET, FLAGS_OFFSET, PACKET_SIZE,
    PROGRAM_OFFSET, VERSION_OFFSET,
};
use crate::text::{decode_lossy, utf8_lossy};
use vstd::utf8::{decode_utf8, valid_utf8};
use vstd::prelude::*;
use vstd::slice::slice_subrange;

verus! {

/// Why a response could not be decoded.
#[derive(Clone, Copy, Debug, PartialEq, Eq)]
pub enum DecodeError {
    /// The response has `actual` bytes and `needed` are needed.
    TruncatedResponse { needed: usize, actual: usize },
}

/// A response to a transfer request must have this many bytes: the size
/// field ends here.
pub const SIZE_RESPONSE_LEN: usize = 256;

/// Where the text ends that starts at `start` and runs up to the first zero
/// byte: the index of that byte, or the length of `bytes` if there is none.
pub open spec fn text_end(bytes: Seq<u8>, start: int) -> int
    decreases bytes.len() - start,
{
    if start < 0 || start >= bytes.len() || bytes[start] == 0 {
        start
    } else {
        text_end(bytes, start + 1)
    }
}

/// The bytes from `start` up to the first zero byte, or up to the end.
pub open spec fn text_at(bytes: Seq<u8>, start: int) -> Seq<u8> {
    bytes.subrange(start, text_end(bytes, start))
}

/// `text_end` is the first index from `start` on that holds a zero or lies
/// behind the last byte.
pub proof fn lemma_text_end(bytes: Seq<u8>, start: int)
    requires
        0 <= start <= bytes.len(),
    ensures
        start <= text_end(bytes, start) <= bytes.len(),
        forall|i: int| start <= i < text_end(bytes, start) ==> bytes[i] != 0,
        text_end(bytes, start) == bytes.len() || bytes[text_end(bytes, start)] == 0,
    decreases bytes.len() - start,
{
    if start < bytes.len() && bytes[start] != 0 {
        lemma_text_end(bytes, start + 1);
    }
}

/// Finds the end of the text that starts at `start`.
fn find_text_end(bytes: &[u8], start: usize) -> (end: usize)
    requires
        start <= bytes@.len(),
    ensures
        end == text_end(bytes@, start as int),
        start <= end <= bytes@.len(),
{
    let mut end = start;
    while end < bytes.len() && bytes[end] != 0
        invariant
            start <= end <= bytes@.len(),
            text_end(bytes@, start as int) == text_end(bytes@, end as int),
        decreases bytes@.len() - end,
    {
        end += 1;
    }
    end
}

/// `text` is what `bytes` decode to: the text that they encode where they
/// are valid UTF-8, and in any case their lossy decoding, in which each part
/// that is not valid is replaced by U+FFFD.
pub open spec fn is_text_of(text: Seq<char>, bytes: Seq<u8>) -> bool {
    &&& text == utf8_lossy(bytes)
    &&& valid_utf8(bytes) ==> text == decode_utf8(bytes)
}

/// The text that starts at `start`, decoded.
fn read_text(bytes: &[u8], start: usize) -> (text: String)
    requires
        start <= bytes@.len(),
    ensures
        is_text_of(text@, text_at(bytes@, start as int)),
{
    let end = find_text_end(bytes, start);
    decode_lossy(slice_subrange(bytes, start, end))
}

/// How a version number is shown: in hexadecimal, upper case, without
/// leading zeros, and zero as nothing at all.
pub open spec fn version_text(version: u32) -> Seq<char> {
    if version == 0 {
        Seq::empty()
    } else {
        upper_hex(version as nat)
    }
}

/// Renders a version number.
pub fn version_string(version: u32) -> (text: String)
    ensures
        text@ == version_text(version),
{
    let mut text = String::new();
    if version > 0 {
        push_upper_hex(&mut text, version);
    }
    text
}

/// Number of feature bits.
pub const FEATURE_COUNT: usize = 8;

/// The name of the feature that bit `bit` of the feature byte stands for.
pub open spec fn feature_name(bit: int) -> Seq<char> {
    if bit == 0 {
        "DSPX"@
    } else if bit == 1 {
        "ST0010"@
    } else if bit == 2 {
        "SRTC"@
    } else if bit == 3 {
        "MSU1"@
    } else if bit == 4 {
        "0x213F"@
    } else if bit == 5 {
        "CMD_UNLOCK"@
    } else if bit == 6 {
        "USB1"@
    } else {
        "DMA1"@
    }
}

/// The byte in which only bit `bit` is set.
pub open spec fn feature_mask(bit: int) -> u8 {
    if bit == 0 {
        0x01
    } else if bit == 1 {
        0x02
    } else if bit == 2 {
        0x04
    } else if bit == 3 {
        0x08
    } else if bit == 4 {
        0x10
    } else if bit == 5 {
        0x20
    } else if bit == 6 {
        0x40
    } else {
        0x80
    }
}

/// Bit `bit` of `features` is set.
pub open spec fn has_feature(features: u8, bit: int) -> bool {
    features & feature_mask(bit) != 0
}

/// The names of the features among the first `count` bits of `features`,
/// lowest bit first.
pub open spec fn feature_names(features: u8, count: int) -> Seq<Seq<char>>
    decreases count,
{
    if count <= 0 {
        Seq::empty()
    } else if has_feature(features, count - 1) {
        feature_names(features, count - 1).push(feature_name(count - 1))
    } else {
        feature_names(features, count - 1)
    }
}

/// The `parts` one after the other, with `|` between two of them.
pub open spec fn joined(parts: Seq<Seq<char>>) -> Seq<char>
    decreases parts.len(),
{
    if parts.len() == 0 {
        Seq::empty()
    } else if parts.len() == 1 {
        parts[0]
    } else {
        joined(parts.drop_last()) + seq!['|'] + parts.last()
    }
}

/// How a feature byte is shown: the names of its set bits, lowest bit first,
/// with `|` between them.
pub open spec fn feature_text(features: u8) -> Seq<char> {
    joined(feature_names(features, FEATURE_COUNT as int))
}

/// The name of a feature and its bit.
fn feature(bit: usize) -> (named: (u8, &'static str))
    requires
        bit < FEATURE_COUNT,
    ensures
        named.0 == feature_mask(bit as int),
        named.1@ == feature_name(bit as int),
{
    if bit == 0 {
        (0x01, "DSPX")
    } else if bit == 1 {
        (0x02, "ST0010")
    } else if bit == 2 {
        (0x04, "SRTC")
    } else if bit == 3 {
        (0x08, "MSU1")
    } else if bit == 4 {
        (0x10, "0x213F")
    } else if bit == 5 {
        (0x20, "CMD_UNLOCK")
    } else if bit == 6 {
        (0x40, "USB1")
    } else {
        (0x80, "DMA1")
    }
}

/// Renders a feature byte.
pub fn feature_string(features: u8) -> (text: String)
    ensures
        text@ == feature_text(features),
{
    let mut text = String::new();
    let mut any = false;
    let mut bit: usize = 0;
    while bit < FEATURE_COUNT
        invariant
            bit <= FEATURE_COUNT,
            any == (feature_names(features, bit as int).len() > 0),
            text@ == joined(feature_names(features, bit as int)),
        decreases FEATURE_COUNT - bit,
    {
        let (mask, name) = feature(bit);
        if features & mask != 0 {
            let ghost before = feature_names(features, bit as int);
            if any {
                text.append("|");
            }
            text.append(name);
            proof {
                reveal_strlit("|");
                let names = before.push(feature_name(bit as int));
                assert(names.drop_last() =~= before);
                assert("|"@ =~= seq!['|']);
                if before.len() == 0 {
                    assert(text@ =~= feature_name(bit as int));
                }
            }
            any = true;
        }
        bit += 1;
    }
    text
}

/// Decodes the response to INFO. The result has five texts:
///
/// 0. the firmware name, from offset 260 up to the first zero byte or the end,
/// 1. the version, the number at offsets 256 to 259, most significant byte
///    first, in upper-case hexadecimal, and empty if the number is zero,
/// 2. the name of the running program, from offset 16 up to the first zero
///    byte,
/// 3. the names of the features whose bits are set in byte 6, with `|`
///    between them,
/// 4. nothing: this one is always empty.
///
/// Bytes that are no valid UTF-8 are replaced in the two names. A response
/// shorter than a packet is refused.
pub fn parse_info_response(response: Vec<u8>) -> (info: Result<Vec<String>, DecodeError>)
    ensures
        response@.len() < PACKET_SIZE ==> info == Err::<Vec<String>, DecodeError>(
            DecodeError::TruncatedResponse { needed: PACKET_SIZE, actual: response@.len() as usize },
        ),
        response@.len() >= PACKET_SIZE ==> {
            &&& info matches Ok(texts)
            &&& texts@.len() == 5
            &&& is_text_of(texts@[0]@, text_at(response@, FIRMWARE_OFFSET as int))
            &&& texts@[1]@ == version_text(be32_at(response@, VERSION_OFFSET as int) as u32)
            &&& is_text_of(texts@[2]@, text_at(response@, PROGRAM_OFFSET as int))
            &&& texts@[3]@ == feature_text(response@[FLAGS_OFFSET as int])
            &&& texts@[4]@ == Seq::<char>::empty()
        },
{
    if response.len() < PACKET_SIZE {
        return Err(
            DecodeError::TruncatedResponse { needed: PACKET_SIZE, actual: response.len() },
        );
    }
    let bytes = response.as_slice();
    let mut texts: Vec<String> = Vec::new();
    texts.push(read_text(bytes, FIRMWARE_OFFSET));
    texts.push(version_string(read_be32(bytes, VERSION_OFFSET)));
    texts.push(read_text(bytes, PROGRAM_OFFSET));
    texts.push(feature_string(bytes[FLAGS_OFFSET]));
    texts.push(String::new());
    Ok(texts)
}

/// Decodes the response to a transfer request: the size at offsets 252 to
/// 255, most significant byte first. A response that ends before the size
/// does is refused.
pub fn parse_get_response(response: Vec<u8>) -> (size: Result<u32, DecodeError>)
    ensures
        response@.len() < SIZE_RESPONSE_LEN ==> size == Err::<u32, DecodeError>(
            DecodeError::TruncatedResponse {
                needed: SIZE_RESPONSE_LEN,
                actual: response@.len() as usize,
            },
        ),
        response@.len() >= SIZE_RESPONSE_LEN ==> size == Ok::<u32, DecodeError>(
            be32_at(response@, ADDRESS_OFFSET as int) as u32,
        ),
{
    if response.len() < SIZE_RESPONSE_LEN {
        return Err(
            DecodeError::TruncatedResponse { needed: SIZE_RESPONSE_LEN, actual: response.len() },
        );
    }
    Ok(read_be32(response.as_slice(), ADDRESS_OFFSET))
}

/// A name that a listing leaves out: `.` or `..`.
pub open spec fn is_dot_name(name: Seq<u8>) -> bool {
    name == seq![0x2Eu8] || name == seq![0x2Eu8, 0x2Eu8]
}

/// The byte at `at` ends a listing: as a type byte it is 0 or 0xFF, or it
/// is the last byte, or it lies behind the first packet.
pub open spec fn listing_ends(bytes: Seq<u8>, at: int) -> bool {
    ||| at < 0
    ||| at >= bytes.len()
    ||| at >= PACKET_SIZE
    ||| bytes[at] == 0
    ||| bytes[at] == 0xFF
    ||| at + 1 >= bytes.len()
}

/// The entries of a listing from offset `at` on, each with its type byte
/// and the bytes of its name. An entry is a type byte and a name that a zero
/// byte ends. Entries without a name and those named `.` or `..` are left out.
pub open spec fn entries_from(bytes: Seq<u8>, at: int) -> Seq<(u8, Seq<u8>)>
    decreases bytes.len() + 1 - at,
{
    if listing_ends(bytes, at) {
        Seq::empty()
    } else {
        proof {
            lemma_text_end(bytes, at + 1);
        }
        let name = text_at(bytes, at + 1);
        let rest = entries_from(bytes, text_end(bytes, at + 1) + 1);
        if name.len() == 0 || is_dot_name(name) {
            rest
        } else {
            seq![(bytes[at], name)] + rest
        }
    }
}

/// The entries of a listing.
pub open spec fn entries(bytes: Seq<u8>) -> Seq<(u8, Seq<u8>)> {
    entries_from(bytes, 0)
}

/// `listing` holds `raw` with the names decoded.
pub open spec fn decoded(listing: Seq<(u8, String)>, raw: Seq<(u8, Seq<u8>)>) -> bool {
    &&& listing.len() == raw.len()
    &&& forall|i: int|
        0 <= i < raw.len() ==> (#[trigger] listing[i]).0 == raw[i].0 && is_text_of(
            listing[i].1@,
            raw[i].1,
        )
}

/// Whether `name` is `.` or `..`.
fn dot_name(name: &[u8]) -> (dot: bool)
    ensures
        dot == is_dot_name(name@),
{
    let dot = (name.len() == 1 && name[0] == 0x2E) || (name.len() == 2 && name[0] == 0x2E
        && name[1] == 0x2E);
    proof {
        if dot {
            assert(name@ =~= seq![0x2Eu8] || name@ =~= seq![0x2Eu8, 0x2Eu8]);
        }
    }
    dot
}

/// Decodes the response to LS: the entries of the directory in the order in
/// which the device sent them, each with its type byte (1 for a directory;
/// 0, which would be a file, ends the listing as 0xFF does) and its name.
/// Only type bytes within the first 512 bytes are looked at. Bytes that are
/// no valid UTF-8 are replaced in the names.
pub fn parse_ls_response_internal(response: &[u8]) -> (listing: Vec<(u8, String)>)
    ensures
        decoded(listing@, entries(response@)),
{
    let n = response.len();
    let mut listing: Vec<(u8, String)> = Vec::new();
    let ghost mut raw: Seq<(u8, Seq<u8>)> = Seq::empty();
    let mut offset: usize = 0;
    while offset < n && offset < PACKET_SIZE
        invariant
            n == response@.len(),
            offset <= n,
            decoded(listing@, raw),
            entries(response@) == raw + entries_from(response@, offset as int),
        decreases n - offset,
    {
        let kind = response[offset];
        if kind == 0 || kind == 0xFF || offset + 1 >= n {
            assert(raw + entries_from(response@, offset as int) =~= raw);
            return listing;
        }
        let start = offset + 1;
        let end = find_text_end(response, start);
        let name = slice_subrange(response, start, end);
        let ghost rest = entries_from(response@, end + 1);
        if end > start && !dot_name(name) {
            let text = decode_lossy(name);
            listing.push((kind, text));
            proof {
                let entry = (kind, name@);
                assert(raw + (seq![entry] + rest) =~= raw.push(entry) + rest);
                raw = raw.push(entry);
            }
        }
        if end < n {
            offset = end + 1;
        } else {
            assert(rest =~= Seq::<(u8, Seq<u8>)>::empty());
            offset = n;
        }
    }
    assert(raw + entries_from(response@, offset as int) =~= raw);
    listing
}

} // verus!
