//! Building request packets.

use crate::hex::{hex_fault, hex_number, parse_hex, HexFault};
use crate::layout::{
    be32, be32_bytes, blank, magic, overlay, ADDRESS_OFFSET, FLAGS_OFFSET, MAGIC_0, MAGIC_1,
    MAGIC_2, MAGIC_3, OPCODE_OFFSET, PACKET_SIZE, PAIRS_OFFSET, PAIR_SIZE, PATH_LIMIT,
    PATH_OFFSET, SECOND_PATH_LIMIT, SECOND_PATH_OFFSET, SPACE_OFFSET,
};
use vstd::prelude::*;
use vstd::utf8::encode_utf8;

verus! {

/// The operations of the protocol.
#[derive(Clone, Copy, Debug, PartialEq, Eq)]
pub enum Opcode {
    Get,
    Put,
    VGet,
    VPut,
    Ls,
    Mkdir,
    Rm,
    Mv,
    Reset,
    Boot,
    PowerCycle,
    Info,
    MenuReset,
    Stream,
    /// Marks a packet that the device sends. No request carries it.
    Response,
}

/// What arguments a request takes and where they go in the packet.
#[derive(Clone, Copy, Debug, PartialEq, Eq)]
pub enum Schema {
    /// An address and a size, both hexadecimal. Only the address is written.
    Transfer,
    /// One to eight pairs of a size and an address, all hexadecimal.
    Vector,
    /// One path.
    Path,
    /// Two paths.
    Rename,
    /// No argument.
    Bare,
}

impl Opcode {
    /// The byte that stands for this operation in a packet.
    pub open spec fn code_of(self) -> u8 {
        match self {
            Opcode::Get => 0,
            Opcode::Put => 1,
            Opcode::VGet => 2,
            Opcode::VPut => 3,
            Opcode::Ls => 4,
            Opcode::Mkdir => 5,
            Opcode::Rm => 6,
            Opcode::Mv => 7,
            Opcode::Reset => 8,
            Opcode::Boot => 9,
            Opcode::PowerCycle => 10,
            Opcode::Info => 11,
            Opcode::MenuReset => 12,
            Opcode::Stream => 13,
            Opcode::Response => 15,
        }
    }

    /// The operation that `code` stands for, if any.
    pub open spec fn of_code(code: u8) -> Option<Opcode> {
        if code == 0 {
            Some(Opcode::Get)
        } else if code == 1 {
            Some(Opcode::Put)
        } else if code == 2 {
            Some(Opcode::VGet)
        } else if code == 3 {
            Some(Opcode::VPut)
        } else if code == 4 {
            Some(Opcode::Ls)
        } else if code == 5 {
            Some(Opcode::Mkdir)
        } else if code == 6 {
            Some(Opcode::Rm)
        } else if code == 7 {
            Some(Opcode::Mv)
        } else if code == 8 {
            Some(Opcode::Reset)
        } else if code == 9 {
            Some(Opcode::Boot)
        } else if code == 10 {
            Some(Opcode::PowerCycle)
        } else if code == 11 {
            Some(Opcode::Info)
        } else if code == 12 {
            Some(Opcode::MenuReset)
        } else if code == 13 {
            Some(Opcode::Stream)
        } else if code == 15 {
            Some(Opcode::Response)
        } else {
            None
        }
    }

    /// The argument schema of a request with this operation. `Response` is
    /// no request and has none.
    pub open spec fn schema_of(self) -> Option<Schema> {
        match self {
            Opcode::Get | Opcode::Put => Some(Schema::Transfer),
            Opcode::VGet | Opcode::VPut => Some(Schema::Vector),
            Opcode::Ls | Opcode::Mkdir | Opcode::Rm | Opcode::Boot => Some(Schema::Path),
            Opcode::Mv => Some(Schema::Rename),
            Opcode::Reset | Opcode::PowerCycle | Opcode::Info | Opcode::MenuReset
            | Opcode::Stream => Some(Schema::Bare),
            Opcode::Response => None,
        }
    }

    /// The byte that stands for this operation in a packet.
    pub fn code(self) -> (code: u8)
        ensures
            code == self.code_of(),
    {
        match self {
            Opcode::Get => 0,
            Opcode::Put => 1,
            Opcode::VGet => 2,
            Opcode::VPut => 3,
            Opcode::Ls => 4,
            Opcode::Mkdir => 5,
            Opcode::Rm => 6,
            Opcode::Mv => 7,
            Opcode::Reset => 8,
            Opcode::Boot => 9,
            Opcode::PowerCycle => 10,
            Opcode::Info => 11,
            Opcode::MenuReset => 12,
            Opcode::Stream => 13,
            Opcode::Response => 15,
        }
    }

    /// The operation that `code` stands for, if any.
    pub fn from_code(code: u8) -> (opcode: Option<Opcode>)
        ensures
            opcode == Opcode::of_code(code),
    {
        match code {
            0 => Some(Opcode::Get),
            1 => Some(Opcode::Put),
            2 => Some(Opcode::VGet),
            3 => Some(Opcode::VPut),
            4 => Some(Opcode::Ls),
            5 => Some(Opcode::Mkdir),
            6 => Some(Opcode::Rm),
            7 => Some(Opcode::Mv),
            8 => Some(Opcode::Reset),
            9 => Some(Opcode::Boot),
            10 => Some(Opcode::PowerCycle),
            11 => Some(Opcode::Info),
            12 => Some(Opcode::MenuReset),
            13 => Some(Opcode::Stream),
            15 => Some(Opcode::Response),
            _ => None,
        }
    }

    /// The argument schema of a request with this operation.
    pub fn schema(self) -> (schema: Option<Schema>)
        ensures
            schema == self.schema_of(),
    {
        match self {
            Opcode::Get | Opcode::Put => Some(Schema::Transfer),
            Opcode::VGet | Opcode::VPut => Some(Schema::Vector),
            Opcode::Ls | Opcode::Mkdir | Opcode::Rm | Opcode::Boot => Some(Schema::Path),
            Opcode::Mv => Some(Schema::Rename),
            Opcode::Reset | Opcode::PowerCycle | Opcode::Info | Opcode::MenuReset
            | Opcode::Stream => Some(Schema::Bare),
            Opcode::Response => None,
        }
    }
}

/// The argument schema of a request whose opcode byte is `opcode`, if that
/// byte stands for a request.
pub open spec fn schema_for(opcode: u8) -> Option<Schema> {
    match Opcode::of_code(opcode) {
        Some(op) => op.schema_of(),
        None => None,
    }
}

/// Which argument an error speaks of.
#[derive(Clone, Copy, Debug, PartialEq, Eq)]
pub enum ArgumentRef {
    /// The argument list as a whole.
    List,
    /// The argument at this position, counted from zero.
    Position(usize),
}

/// What is wrong with an argument.
#[derive(Clone, Copy, Debug, PartialEq, Eq)]
pub enum ArgumentFault {
    /// The list has a number of arguments that the request cannot take.
    Count,
    /// The argument is no hexadecimal number of its width.
    Number(HexFault),
}

/// Why no request packet could be built.
#[derive(Clone, Copy, Debug, PartialEq, Eq)]
pub enum EncodeError {
    /// A required argument is not there.
    MissingArgument { opcode: u8, argument: ArgumentRef },
    /// An argument is there and cannot be used.
    InvalidArgument { opcode: u8, argument: ArgumentRef, fault: ArgumentFault },
    /// The opcode byte stands for no request.
    UnsupportedOpcode { opcode: u8, space: u8, flags: u8 },
}

/// The arguments of a request as the bytes of their text.
pub open spec fn arg_texts(args: Option<Vec<String>>) -> Option<Seq<Seq<u8>>> {
    match args {
        Some(list) => Some(texts(list@)),
        None => None,
    }
}

/// Each string of `list` as the bytes of its text.
pub open spec fn texts(list: Seq<String>) -> Seq<Seq<u8>> {
    Seq::new(list.len(), |i: int| encode_utf8(list[i]@))
}

/// A packet that holds the magic tag, `opcode`, `space` and `flags`, and
/// zeros from there on.
pub open spec fn header(opcode: u8, space: u8, flags: u8) -> Seq<u8> {
    overlay(blank(), 0, magic() + seq![opcode, space, flags])
}

/// The first `limit` bytes of `text`, or all of it if it is shorter.
pub open spec fn cut(text: Seq<u8>, limit: int) -> Seq<u8> {
    if text.len() <= limit {
        text
    } else {
        text.take(limit)
    }
}

/// The error for argument `j` that is no hexadecimal number of at most
/// `max`: it names the position and says what is wrong with the text.
pub open spec fn invalid_number(opcode: u8, list: Seq<Seq<u8>>, j: int, max: nat) -> EncodeError {
    EncodeError::InvalidArgument {
        opcode,
        argument: ArgumentRef::Position(j as usize),
        fault: ArgumentFault::Number(hex_fault(list[j], max)),
    }
}

/// A transfer request: the address goes to bytes 252 to 255, most
/// significant byte first. The size must be a number and is not written.
/// Arguments after the second are not looked at.
pub open spec fn encode_transfer(opcode: u8, base: Seq<u8>, args: Option<Seq<Seq<u8>>>) -> Result<
    Seq<u8>,
    EncodeError,
> {
    match args {
        None => Err(
            EncodeError::MissingArgument { opcode, argument: ArgumentRef::Position(0) },
        ),
        Some(list) => if list.len() < 2 {
            Err(EncodeError::MissingArgument { opcode, argument: ArgumentRef::Position(1) })
        } else {
            match hex_number(list[0], u32::MAX as nat) {
                None => Err(invalid_number(opcode, list, 0, u32::MAX as nat)),
                Some(address) => match hex_number(list[1], u32::MAX as nat) {
                    None => Err(invalid_number(opcode, list, 1, u32::MAX as nat)),
                    Some(_) => Ok(overlay(base, ADDRESS_OFFSET as int, be32(address as u32))),
                },
            }
        },
    }
}

/// The largest number that argument `j` of a vector request may be. The
/// arguments come in pairs: one at an even position is a size and fits one
/// byte, the one after it is an address and fits four.
pub open spec fn pair_limit(j: int) -> nat {
    if j % 2 == 0 {
        u8::MAX as nat
    } else {
        u32::MAX as nat
    }
}

/// The number that argument `j` of a vector request denotes, if it is a
/// hexadecimal number within its limit.
pub open spec fn pair_number(list: Seq<Seq<u8>>, j: int) -> Option<nat> {
    hex_number(list[j], pair_limit(j))
}

/// Each of the first `n` arguments is a number within its limit.
pub open spec fn pairs_valid(list: Seq<Seq<u8>>, n: int) -> bool {
    forall|j: int| 0 <= j < n ==> (#[trigger] pair_number(list, j)) is Some
}

/// Argument `j` is no number within its limit, and every argument before it
/// is one.
pub open spec fn is_first_invalid(list: Seq<Seq<u8>>, j: int) -> bool {
    0 <= j < list.len() && pair_number(list, j) is None && pairs_valid(list, j)
}

/// The position of the first argument that is no number within its limit.
pub open spec fn first_invalid(list: Seq<Seq<u8>>) -> int {
    choose|j: int| is_first_invalid(list, j)
}

/// The pairs as they stand in the packet, one after the other without a
/// gap: of each the size in one byte, then the address in four, most
/// significant byte first.
pub open spec fn pair_bytes(list: Seq<Seq<u8>>) -> Seq<u8> {
    Seq::new(
        (list.len() / 2 * PAIR_SIZE) as nat,
        |k: int|
            if k % 5 == 0 {
                pair_number(list, 2 * (k / 5))->0 as u8
            } else {
                be32(pair_number(list, 2 * (k / 5) + 1)->0 as u32)[k % 5 - 1]
            },
    )
}

/// A vector request: 2 to 16 arguments, an even number of them, that is one
/// to eight pairs. The pairs go to offset 32 and end at offset 72 at the
/// latest.
pub open spec fn encode_vector(opcode: u8, base: Seq<u8>, args: Option<Seq<Seq<u8>>>) -> Result<
    Seq<u8>,
    EncodeError,
> {
    match args {
        None => Err(EncodeError::MissingArgument { opcode, argument: ArgumentRef::List }),
        Some(list) => if list.len() < 2 || list.len() > 16 || list.len() % 2 != 0 {
            Err(
                EncodeError::InvalidArgument {
                    opcode,
                    argument: ArgumentRef::List,
                    fault: ArgumentFault::Count,
                },
            )
        } else if pairs_valid(list, list.len() as int) {
            Ok(overlay(base, PAIRS_OFFSET as int, pair_bytes(list)))
        } else {
            Err(
                invalid_number(
                    opcode,
                    list,
                    first_invalid(list),
                    pair_limit(first_invalid(list)),
                ),
            )
        },
    }
}

/// There is one first invalid argument at most.
pub proof fn lemma_first_invalid(list: Seq<Seq<u8>>, j: int)
    requires
        is_first_invalid(list, j),
    ensures
        first_invalid(list) == j,
        !pairs_valid(list, list.len() as int),
{
    let found = first_invalid(list);
    assert(is_first_invalid(list, found));
    if found < j {
        assert(pair_number(list, found) is Some);
    }
    if j < found {
        assert(pair_number(list, j) is Some);
    }
}

/// A request with one path: its bytes go to offset 8, at most 247 of them.
/// Arguments after the first are not looked at.
pub open spec fn encode_path(opcode: u8, base: Seq<u8>, args: Option<Seq<Seq<u8>>>) -> Result<
    Seq<u8>,
    EncodeError,
> {
    match args {
        None => Err(
            EncodeError::MissingArgument { opcode, argument: ArgumentRef::Position(0) },
        ),
        Some(list) => if list.len() < 1 {
            Err(EncodeError::MissingArgument { opcode, argument: ArgumentRef::Position(0) })
        } else {
            Ok(overlay(base, PATH_OFFSET as int, cut(list[0], PATH_LIMIT as int)))
        },
    }
}

/// A request with two paths: the first goes to offset 8, at most 247 bytes of
/// it, the second to offset 256, at most 255 bytes of it. Arguments after the
/// second are not looked at.
pub open spec fn encode_rename(opcode: u8, base: Seq<u8>, args: Option<Seq<Seq<u8>>>) -> Result<
    Seq<u8>,
    EncodeError,
> {
    match args {
        None => Err(
            EncodeError::MissingArgument { opcode, argument: ArgumentRef::Position(0) },
        ),
        Some(list) => if list.len() < 1 {
            Err(EncodeError::MissingArgument { opcode, argument: ArgumentRef::Position(0) })
        } else if list.len() < 2 {
            Err(EncodeError::MissingArgument { opcode, argument: ArgumentRef::Position(1) })
        } else {
            Ok(
                overlay(
                    overlay(base, PATH_OFFSET as int, cut(list[0], PATH_LIMIT as int)),
                    SECOND_PATH_OFFSET as int,
                    cut(list[1], SECOND_PATH_LIMIT as int),
                ),
            )
        },
    }
}

/// The request packet for `opcode`, `space`, `flags` and the arguments, or
/// the reason why there is none.
pub open spec fn encode(opcode: u8, space: u8, flags: u8, args: Option<Seq<Seq<u8>>>) -> Result<
    Seq<u8>,
    EncodeError,
> {
    match schema_for(opcode) {
        Some(Schema::Transfer) => encode_transfer(opcode, header(opcode, space, flags), args),
        Some(Schema::Vector) => encode_vector(opcode, header(opcode, space, flags), args),
        Some(Schema::Path) => encode_path(opcode, header(opcode, space, flags), args),
        Some(Schema::Rename) => encode_rename(opcode, header(opcode, space, flags), args),
        Some(Schema::Bare) => Ok(header(opcode, space, flags)),
        None => Err(EncodeError::UnsupportedOpcode { opcode, space, flags }),
    }
}

/// Every operation is found again from its code.
pub proof fn lemma_opcode_round_trip(op: Opcode)
    ensures
        Opcode::of_code(op.code_of()) == Some(op),
{
}

/// A request without arguments, that is RESET, POWER_CYCLE, INFO,
/// MENU_RESET or STREAM, can always be built, whatever arguments come with
/// it. The packet is the header and nothing else: the magic tag, the opcode,
/// the space selector and the flags in its first seven bytes, and zeros. So
/// two such requests with the same three bytes are the same packet, however
/// often and in whatever order they are built.
pub proof fn lemma_bare_request_is_header(
    opcode: u8,
    space: u8,
    flags: u8,
    args: Option<Seq<Seq<u8>>>,
    other_args: Option<Seq<Seq<u8>>>,
)
    requires
        opcode == Opcode::Reset.code_of() || opcode == Opcode::PowerCycle.code_of() || opcode
            == Opcode::Info.code_of() || opcode == Opcode::MenuReset.code_of() || opcode
            == Opcode::Stream.code_of(),
    ensures
        encode(opcode, space, flags, args) == Ok::<Seq<u8>, EncodeError>(
            header(opcode, space, flags),
        ),
        encode(opcode, space, flags, other_args) == encode(opcode, space, flags, args),
        header(opcode, space, flags).len() == PACKET_SIZE,
        header(opcode, space, flags).subrange(0, 7) == magic() + seq![opcode, space, flags],
        forall|i: int| 7 <= i < PACKET_SIZE ==> header(opcode, space, flags)[i] == 0,
{
    assert(header(opcode, space, flags).subrange(0, 7) =~= magic() + seq![opcode, space, flags]);
}

/// A vector request, VGET or VPUT, is refused before anything is written
/// if the number of its arguments is wrong: below two, above sixteen, or
/// odd.
pub proof fn lemma_vector_count_is_checked(opcode: u8, space: u8, flags: u8, list: Seq<Seq<u8>>)
    requires
        opcode == Opcode::VGet.code_of() || opcode == Opcode::VPut.code_of(),
        list.len() < 2 || list.len() > 16 || list.len() % 2 != 0,
    ensures
        encode(opcode, space, flags, Some(list)) == Err::<Seq<u8>, EncodeError>(
            EncodeError::InvalidArgument {
                opcode,
                argument: ArgumentRef::List,
                fault: ArgumentFault::Count,
            },
        ),
{
}

/// A packet with the header filled in and nothing else.
fn new_packet(opcode: u8, space: u8, flags: u8) -> (packet: [u8; 512])
    ensures
        packet@ == header(opcode, space, flags),
{
    let mut packet = [0u8; 512];
    packet[0] = MAGIC_0;
    packet[1] = MAGIC_1;
    packet[2] = MAGIC_2;
    packet[3] = MAGIC_3;
    packet[OPCODE_OFFSET] = opcode;
    packet[SPACE_OFFSET] = space;
    packet[FLAGS_OFFSET] = flags;
    assert(packet@ =~= header(opcode, space, flags));
    packet
}

/// Writes the first `limit` bytes of `data` into `packet` from offset `at` on.
fn write_bytes(packet: &mut [u8; 512], at: usize, data: &[u8], limit: usize)
    requires
        at + limit <= PACKET_SIZE,
    ensures
        final(packet)@ == overlay(old(packet)@, at as int, cut(data@, limit as int)),
{
    let count = if data.len() <= limit {
        data.len()
    } else {
        limit
    };
    let ghost before = packet@;
    let ghost written = cut(data@, limit as int);
    let mut i: usize = 0;
    assert(packet@ =~= overlay(before, at as int, written.take(0)));
    while i < count
        invariant
            i <= count,
            count == written.len(),
            count <= limit,
            at + limit <= PACKET_SIZE,
            count <= data@.len(),
            forall|k: int| 0 <= k < count ==> written[k] == data@[k],
            packet@ == overlay(before, at as int, written.take(i as int)),
        decreases count - i,
    {
        packet[at + i] = data[i];
        i += 1;
        assert(packet@ =~= overlay(before, at as int, written.take(i as int)));
    }
    assert(written.take(count as int) =~= written);
}

/// The text of argument `i` as bytes.
fn arg_text(list: &Vec<String>, i: usize) -> (text: &[u8])
    requires
        i < list@.len(),
    ensures
        text@ == encode_utf8(list@[i as int]@),
{
    list[i].as_str().as_bytes()
}

/// Reads argument `j` as a hexadecimal number of at most `max`.
fn read_number(opcode: u8, list: &Vec<String>, j: usize, max: u32) -> (number: Result<
    u32,
    EncodeError,
>)
    requires
        j < list@.len(),
    ensures
        match number {
            Ok(v) => hex_number(texts(list@)[j as int], max as nat) == Some(v as nat),
            Err(e) => {
                &&& hex_number(texts(list@)[j as int], max as nat) is None
                &&& e == invalid_number(opcode, texts(list@), j as int, max as nat)
            },
        },
{
    match parse_hex(arg_text(list, j), max) {
        Ok(v) => Ok(v),
        Err(fault) => Err(
            EncodeError::InvalidArgument {
                opcode,
                argument: ArgumentRef::Position(j),
                fault: ArgumentFault::Number(fault),
            },
        ),
    }
}

/// Reads the two arguments of pair `i` of a vector request.
fn read_pair(opcode: u8, list: &Vec<String>, i: usize) -> (pair: Result<(u8, u32), EncodeError>)
    requires
        i < 8,
        2 * i + 1 < list@.len(),
    ensures
        match pair {
            Ok((size, address)) => {
                &&& pair_number(texts(list@), 2 * i) == Some(size as nat)
                &&& pair_number(texts(list@), 2 * i + 1) == Some(address as nat)
            },
            Err(e) => {
                ||| {
                    &&& pair_number(texts(list@), 2 * i) is None
                    &&& e == invalid_number(opcode, texts(list@), 2 * i, pair_limit(2 * i))
                }
                ||| {
                    &&& pair_number(texts(list@), 2 * i) is Some
                    &&& pair_number(texts(list@), 2 * i + 1) is None
                    &&& e == invalid_number(
                        opcode,
                        texts(list@),
                        2 * i + 1,
                        pair_limit(2 * i + 1),
                    )
                }
            },
        },
{
    let size = match read_number(opcode, list, i * 2, 0xff) {
        Ok(size) => size as u8,
        Err(e) => {
            return Err(e);
        },
    };
    let address = match read_number(opcode, list, i * 2 + 1, u32::MAX) {
        Ok(address) => address,
        Err(e) => {
            return Err(e);
        },
    };
    Ok((size, address))
}

/// Writes the pairs of a vector request into `packet`.
fn write_pairs(packet: &mut [u8; 512], opcode: u8, list: &Vec<String>) -> (done: Result<
    (),
    EncodeError,
>)
    requires
        2 <= list@.len() <= 16,
        list@.len() % 2 == 0,
    ensures
        match done {
            Ok(()) => {
                &&& pairs_valid(texts(list@), list@.len() as int)
                &&& final(packet)@ == overlay(
                    old(packet)@,
                    PAIRS_OFFSET as int,
                    pair_bytes(texts(list@)),
                )
            },
            Err(e) => {
                &&& !pairs_valid(texts(list@), list@.len() as int)
                &&& e == invalid_number(
                    opcode,
                    texts(list@),
                    first_invalid(texts(list@)),
                    pair_limit(first_invalid(texts(list@))),
                )
            },
        },
{
    let pairs = list.len() / 2;
    let ghost base = packet@;
    let ghost all = pair_bytes(texts(list@));
    let mut offset: usize = PAIRS_OFFSET;
    let mut i: usize = 0;
    assert(packet@ =~= overlay(base, PAIRS_OFFSET as int, all.take(0)));
    // The pairs end where the second path of a rename request would begin.
    // With at most eight pairs the last one ends at offset 72, so none is
    // ever left out.
    while i < pairs && offset <= SECOND_PATH_OFFSET
        invariant
            i <= pairs,
            pairs * 2 == list@.len(),
            pairs <= 8,
            offset == PAIRS_OFFSET + PAIR_SIZE * i,
            base == old(packet)@,
            all == pair_bytes(texts(list@)),
            all.len() == PAIR_SIZE * pairs,
            pairs_valid(texts(list@), 2 * i),
            packet@ == overlay(base, PAIRS_OFFSET as int, all.take(PAIR_SIZE * i)),
        decreases pairs - i,
    {
        let (size, address) = match read_pair(opcode, list, i) {
            Ok(pair) => pair,
            Err(e) => {
                proof {
                    let j = if pair_number(texts(list@), 2 * i) is None {
                        2 * i
                    } else {
                        2 * i + 1
                    };
                    lemma_first_invalid(texts(list@), j);
                }
                return Err(e);
            },
        };
        let bytes = be32_bytes(address);
        let pair = [size, bytes[0], bytes[1], bytes[2], bytes[3]];
        let ghost before = packet@;
        write_bytes(packet, offset, pair.as_slice(), PAIR_SIZE);
        proof {
            let next = all.take(PAIR_SIZE * (i + 1));
            assert forall|x: int| 0 <= x < PACKET_SIZE implies packet@[x] == overlay(
                base,
                PAIRS_OFFSET as int,
                next,
            )[x] by {
                let k = x - PAIRS_OFFSET;
                if PAIR_SIZE * i <= k < PAIR_SIZE * (i + 1) {
                    assert(k / 5 == i);
                    assert(k % 5 == k - 5 * i);
                    assert(next[k] == all[k]);
                    assert(cut(pair@, PAIR_SIZE as int) == pair@);
                    assert(packet@[x] == pair@[k - 5 * i]);
                } else {
                    assert(packet@[x] == before[x]);
                    if 0 <= k < PAIR_SIZE * i {
                        assert(all.take(PAIR_SIZE * i)[k] == next[k]);
                    }
                }
            }
            assert(packet@ =~= overlay(base, PAIRS_OFFSET as int, next));
            assert forall|j: int| 0 <= j < 2 * (i + 1) implies (#[trigger] pair_number(
                texts(list@),
                j,
            )) is Some by {
                if j < 2 * i {
                    assert(pairs_valid(texts(list@), 2 * i));
                }
            }
        }
        offset += PAIR_SIZE;
        i += 1;
    }
    assert(all.take(PAIR_SIZE * pairs) =~= all);
    Ok(())
}

/// Builds the request packet for `opcode`, `space`, `flags` and the
/// arguments that the opcode asks for.
///
/// Bytes 0 to 3 hold the magic tag, byte 4 the opcode, byte 5 the space
/// selector and byte 6 the flags. What the arguments do not fill is zero.
/// Numbers are given in hexadecimal; of a path its UTF-8 bytes are written.
pub fn build_request(opcode: u8, space: u8, flags: u8, args: Option<Vec<String>>) -> (request:
    Result<[u8; 512], EncodeError>)
    ensures
        match request {
            Ok(packet) => encode(opcode, space, flags, arg_texts(args)) == Ok::<
                Seq<u8>,
                EncodeError,
            >(packet@),
            Err(e) => encode(opcode, space, flags, arg_texts(args)) == Err::<Seq<u8>, EncodeError>(
                e,
            ),
        },
{
    let schema = match Opcode::from_code(opcode) {
        Some(op) => op.schema(),
        None => None,
    };
    let mut packet = new_packet(opcode, space, flags);
    match schema {
        Some(Schema::Transfer) => {
            let list = match &args {
                Some(list) => list,
                None => {
                    return Err(
                        EncodeError::MissingArgument {
                            opcode,
                            argument: ArgumentRef::Position(0),
                        },
                    );
                },
            };
            if list.len() < 2 {
                return Err(
                    EncodeError::MissingArgument { opcode, argument: ArgumentRef::Position(1) },
                );
            }
            let address = match read_number(opcode, list, 0, u32::MAX) {
                Ok(address) => address,
                Err(e) => {
                    return Err(e);
                },
            };
            match read_number(opcode, list, 1, u32::MAX) {
                Ok(_) => {},
                Err(e) => {
                    return Err(e);
                },
            }
            let bytes = be32_bytes(address);
            write_bytes(&mut packet, ADDRESS_OFFSET, bytes.as_slice(), 4);
            Ok(packet)
        },
        Some(Schema::Vector) => {
            let list = match &args {
                Some(list) => list,
                None => {
                    return Err(
                        EncodeError::MissingArgument { opcode, argument: ArgumentRef::List },
                    );
                },
            };
            if list.len() < 2 || list.len() > 16 || list.len() % 2 != 0 {
                return Err(
                    EncodeError::InvalidArgument {
                        opcode,
                        argument: ArgumentRef::List,
                        fault: ArgumentFault::Count,
                    },
                );
            }
            match write_pairs(&mut packet, opcode, list) {
                Ok(()) => {},
                Err(e) => {
                    return Err(e);
                },
            }
            Ok(packet)
        },
        Some(Schema::Path) => {
            let list = match &args {
                Some(list) => list,
                None => {
                    return Err(
                        EncodeError::MissingArgument {
                            opcode,
                            argument: ArgumentRef::Position(0),
                        },
                    );
                },
            };
            if list.len() < 1 {
                return Err(
                    EncodeError::MissingArgument { opcode, argument: ArgumentRef::Position(0) },
                );
            }
            write_bytes(&mut packet, PATH_OFFSET, arg_text(list, 0), PATH_LIMIT);
            Ok(packet)
        },
        Some(Schema::Rename) => {
            let list = match &args {
                Some(list) => list,
                None => {
                    return Err(
                        EncodeError::MissingArgument {
                            opcode,
                            argument: ArgumentRef::Position(0),
                        },
                    );
                },
            };
            if list.len() < 1 {
                return Err(
                    EncodeError::MissingArgument { opcode, argument: ArgumentRef::Position(0) },
                );
            }
            if list.len() < 2 {
                return Err(
                    EncodeError::MissingArgument { opcode, argument: ArgumentRef::Position(1) },
                );
            }
            write_bytes(&mut packet, PATH_OFFSET, arg_text(list, 0), PATH_LIMIT);
            write_bytes(&mut packet, SECOND_PATH_OFFSET, arg_text(list, 1), SECOND_PATH_LIMIT);
            Ok(packet)
        },
        Some(Schema::Bare) => Ok(packet),
        None => Err(EncodeError::UnsupportedOpcode { opcode, space, flags }),
    }
}

} // verus!
