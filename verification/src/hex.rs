//! Hexadecimal numbers as text.

use vstd::prelude::*;

verus! {

/// What the ASCII character `b` is worth as a hexadecimal digit, if it is
/// one. Both `a` to `f` and `A` to `F` count.
pub open spec fn hex_digit(b: u8) -> Option<nat> {
    if 0x30 <= b <= 0x39 {
        Some((b - 0x30) as nat)
    } else if 0x61 <= b <= 0x66 {
        Some((b - 0x61 + 10) as nat)
    } else if 0x41 <= b <= 0x46 {
        Some((b - 0x41 + 10) as nat)
    } else {
        None
    }
}

/// Every byte of `digits` is a hexadecimal digit.
pub open spec fn all_hex_digits(digits: Seq<u8>) -> bool {
    forall|i: int| 0 <= i < digits.len() ==> (#[trigger] hex_digit(digits[i])) is Some
}

/// The number that `digits` denote, most significant digit first. A byte
/// that is no digit counts as zero.
pub open spec fn hex_value(digits: Seq<u8>) -> nat
    decreases digits.len(),
{
    if digits.len() == 0 {
        0
    } else {
        16 * hex_value(digits.drop_last()) + match hex_digit(digits.last()) {
            Some(d) => d,
            None => 0,
        }
    }
}

/// `text` without its sign: one leading `+` is allowed and means nothing.
pub open spec fn unsigned_part(text: Seq<u8>) -> Seq<u8> {
    if text.len() > 0 && text[0] == 0x2B {
        text.subrange(1, text.len() as int)
    } else {
        text
    }
}

/// The number that `text` denotes if it is a hexadecimal number of at most
/// `max`: an optional `+`, then one or more hexadecimal digits and nothing
/// else. Leading zeros are allowed in any number.
pub open spec fn hex_number(text: Seq<u8>, max: nat) -> Option<nat> {
    let digits = unsigned_part(text);
    if digits.len() > 0 && all_hex_digits(digits) && hex_value(digits) <= max {
        Some(hex_value(digits))
    } else {
        None
    }
}

/// Why a text is no hexadecimal number within a limit.
#[derive(Clone, Copy, Debug, PartialEq, Eq)]
pub enum HexFault {
    /// The text is empty.
    Empty,
    /// There is a character that is no hexadecimal digit, or a sign without
    /// a digit behind it.
    InvalidDigit,
    /// The digits denote more than the limit.
    TooLarge,
}

/// `digits` begins with `k` hexadecimal digits and no more.
pub open spec fn is_digit_run(digits: Seq<u8>, k: int) -> bool {
    &&& 0 <= k <= digits.len()
    &&& all_hex_digits(digits.take(k))
    &&& (k == digits.len() || hex_digit(digits[k]) is None)
}

/// With how many hexadecimal digits `digits` begins.
pub open spec fn digit_run(digits: Seq<u8>) -> int {
    choose|k: int| is_digit_run(digits, k)
}

/// Why `text` is no hexadecimal number of at most `max`, where it is none.
/// The text is read from the left: the digits before the first character
/// that is no digit count, and if they denote too much already, the number
/// is too large, whatever follows.
pub open spec fn hex_fault(text: Seq<u8>, max: nat) -> HexFault {
    let digits = unsigned_part(text);
    if text.len() == 0 {
        HexFault::Empty
    } else if hex_value(digits.take(digit_run(digits))) > max {
        HexFault::TooLarge
    } else {
        HexFault::InvalidDigit
    }
}

/// A text begins with one number of hexadecimal digits only.
pub proof fn lemma_digit_run(digits: Seq<u8>, k: int)
    requires
        is_digit_run(digits, k),
    ensures
        digit_run(digits) == k,
{
    let found = digit_run(digits);
    assert(is_digit_run(digits, found));
    if found < k {
        assert(hex_digit(digits.take(k)[found]) is Some);
    }
    if k < found {
        assert(hex_digit(digits.take(found)[k]) is Some);
    }
}

/// If the first `n` bytes are hexadecimal digits, the text begins with at
/// least `n` of them.
pub proof fn lemma_digit_run_from(digits: Seq<u8>, n: int)
    requires
        0 <= n <= digits.len(),
        all_hex_digits(digits.take(n)),
    ensures
        is_digit_run(digits, digit_run(digits)),
        n <= digit_run(digits),
    decreases digits.len() - n,
{
    if n == digits.len() || hex_digit(digits[n]) is None {
        lemma_digit_run(digits, n);
    } else {
        assert forall|i: int| 0 <= i < n + 1 implies (#[trigger] hex_digit(
            digits.take(n + 1)[i],
        )) is Some by {
            if i < n {
                assert(digits.take(n + 1)[i] == digits.take(n)[i]);
            }
        }
        lemma_digit_run_from(digits, n + 1);
    }
}

/// The first digits of a number denote no more than all of them.
pub proof fn lemma_hex_value_grows(digits: Seq<u8>, n: int)
    requires
        0 <= n <= digits.len(),
    ensures
        hex_value(digits.take(n)) <= hex_value(digits),
    decreases digits.len(),
{
    if n == digits.len() {
        assert(digits.take(n) =~= digits);
    } else {
        assert(digits.drop_last().take(n) =~= digits.take(n));
        lemma_hex_value_grows(digits.drop_last(), n);
    }
}

/// Value of one hexadecimal digit.
pub fn hex_digit_value(b: u8) -> (d: Option<u8>)
    ensures
        match d {
            Some(v) => hex_digit(b) == Some(v as nat),
            None => hex_digit(b) is None,
        },
{
    if 0x30 <= b && b <= 0x39 {
        Some(b - 0x30)
    } else if 0x61 <= b && b <= 0x66 {
        Some(b - 0x61 + 10)
    } else if 0x41 <= b && b <= 0x46 {
        Some(b - 0x41 + 10)
    } else {
        None
    }
}

/// Reads `text` as a hexadecimal number of at most `max`, or says why it is
/// none.
pub fn parse_hex(text: &[u8], max: u32) -> (number: Result<u32, HexFault>)
    ensures
        match number {
            Ok(v) => hex_number(text@, max as nat) == Some(v as nat),
            Err(fault) => hex_number(text@, max as nat) is None && fault == hex_fault(
                text@,
                max as nat,
            ),
        },
{
    let n = text.len();
    if n == 0 {
        return Err(HexFault::Empty);
    }
    let start: usize = if text[0] == 0x2B {
        1
    } else {
        0
    };
    let ghost digits = unsigned_part(text@);
    assert(digits =~= text@.subrange(start as int, n as int));
    assert(digits.take(0) =~= Seq::<u8>::empty());
    if start == n {
        proof {
            lemma_digit_run(digits, 0);
        }
        return Err(HexFault::InvalidDigit);
    }
    let mut value: u64 = 0;
    let mut i: usize = start;
    while i < n
        invariant
            start <= i <= n,
            0 < n == text@.len(),
            digits == unsigned_part(text@),
            digits == text@.subrange(start as int, n as int),
            all_hex_digits(digits.take(i - start)),
            value == hex_value(digits.take(i - start)),
            value <= max,
        decreases n - i,
    {
        let ghost seen = digits.take(i - start);
        let ghost more = digits.take(i + 1 - start);
        assert(more.drop_last() =~= seen);
        assert(more.last() == text@[i as int]);
        let d = match hex_digit_value(text[i]) {
            Some(d) => d,
            None => {
                proof {
                    assert(hex_digit(digits[i - start]) is None);
                    lemma_digit_run(digits, i - start);
                }
                return Err(HexFault::InvalidDigit);
            },
        };
        assert forall|k: int| 0 <= k < more.len() implies (#[trigger] hex_digit(more[k])) is Some by {
            if k < seen.len() {
                assert(more[k] == seen[k]);
            }
        }
        let next: u64 = value * 16 + d as u64;
        if next > max as u64 {
            proof {
                lemma_hex_value_grows(digits, i + 1 - start);
                lemma_digit_run_from(digits, i + 1 - start);
                let run = digits.take(digit_run(digits));
                assert(run.take(i + 1 - start) =~= more);
                lemma_hex_value_grows(run, i + 1 - start);
            }
            return Err(HexFault::TooLarge);
        }
        value = next;
        i += 1;
    }
    assert(digits.take(n - start) =~= digits);
    Ok(value as u32)
}

/// The character for a hexadecimal digit, in upper case.
pub open spec fn upper_hex_digit(d: nat) -> char {
    if d == 0 {
        '0'
    } else if d == 1 {
        '1'
    } else if d == 2 {
        '2'
    } else if d == 3 {
        '3'
    } else if d == 4 {
        '4'
    } else if d == 5 {
        '5'
    } else if d == 6 {
        '6'
    } else if d == 7 {
        '7'
    } else if d == 8 {
        '8'
    } else if d == 9 {
        '9'
    } else if d == 10 {
        'A'
    } else if d == 11 {
        'B'
    } else if d == 12 {
        'C'
    } else if d == 13 {
        'D'
    } else if d == 14 {
        'E'
    } else {
        'F'
    }
}

/// `value` in hexadecimal, upper case, without leading zeros; zero is `0`.
pub open spec fn upper_hex(value: nat) -> Seq<char>
    decreases value,
{
    if value < 16 {
        seq![upper_hex_digit(value)]
    } else {
        upper_hex(value / 16).push(upper_hex_digit(value % 16))
    }
}

/// The text of one hexadecimal digit.
fn upper_hex_digit_text(d: u32) -> (text: &'static str)
    requires
        d < 16,
    ensures
        text@ == seq![upper_hex_digit(d as nat)],
{
    proof {
        reveal_strlit("0");
        reveal_strlit("1");
        reveal_strlit("2");
        reveal_strlit("3");
        reveal_strlit("4");
        reveal_strlit("5");
        reveal_strlit("6");
        reveal_strlit("7");
        reveal_strlit("8");
        reveal_strlit("9");
        reveal_strlit("A");
        reveal_strlit("B");
        reveal_strlit("C");
        reveal_strlit("D");
        reveal_strlit("E");
        reveal_strlit("F");
    }
    let text = if d == 0 {
        "0"
    } else if d == 1 {
        "1"
    } else if d == 2 {
        "2"
    } else if d == 3 {
        "3"
    } else if d == 4 {
        "4"
    } else if d == 5 {
        "5"
    } else if d == 6 {
        "6"
    } else if d == 7 {
        "7"
    } else if d == 8 {
        "8"
    } else if d == 9 {
        "9"
    } else if d == 10 {
        "A"
    } else if d == 11 {
        "B"
    } else if d == 12 {
        "C"
    } else if d == 13 {
        "D"
    } else if d == 14 {
        "E"
    } else {
        "F"
    };
    assert(text@ =~= seq![upper_hex_digit(d as nat)]);
    text
}

/// Appends `value` in hexadecimal, upper case, to `out`.
pub fn push_upper_hex(out: &mut String, value: u32)
    ensures
        final(out)@ == old(out)@ + upper_hex(value as nat),
    decreases value,
{
    if value >= 16 {
        push_upper_hex(out, value / 16);
    }
    out.append(upper_hex_digit_text(value % 16));
}

} // verus!
