//! Hexadecimal notation of byte strings.

use vstd::prelude::*;

use crate::text;

verus! {

/// The value of a hexadecimal digit of either case, given as an ASCII byte.
pub open spec fn digit_value(b: u8) -> Option<u8> {
    if 0x30 <= b <= 0x39 {
        Some((b - 0x30) as u8)
    } else if 0x41 <= b <= 0x46 {
        Some((b - 0x41 + 10) as u8)
    } else if 0x61 <= b <= 0x66 {
        Some((b - 0x61 + 10) as u8)
    } else {
        None
    }
}

/// The value of a hexadecimal digit of either case.
pub open spec fn nibble(c: char) -> Option<u8> {
    if '\0' <= c <= '\u{7f}' {
        digit_value(c as u8)
    } else {
        None
    }
}

/// The value of the hexadecimal digit `b`, where it is one.
pub fn hex_digit_value(b: u8) -> (v: Option<u8>)
    ensures
        v == digit_value(b),
        v matches Some(d) ==> d < 16,
{
    if 0x30 <= b && b <= 0x39 {
        Some(b - 0x30)
    } else if 0x41 <= b && b <= 0x46 {
        Some(b - 0x41 + 10)
    } else if 0x61 <= b && b <= 0x66 {
        Some(b - 0x61 + 10)
    } else {
        None
    }
}

/// The byte that two hexadecimal digits denote.
pub open spec fn pair_value(hi: u8, lo: u8) -> u8 {
    (16 * digit_value(hi)->0 + digit_value(lo)->0) as u8
}

/// The index of the first byte that is no hexadecimal digit, or the length of
/// `text` where there is none.
pub open spec fn first_bad(text: Seq<u8>) -> int
    decreases text.len(),
{
    if text.len() == 0 || digit_value(text[0]) is None {
        0
    } else {
        1 + first_bad(text.skip(1))
    }
}

/// The bytes that pairs of hexadecimal digits denote.
pub open spec fn hex_bytes(text: Seq<u8>) -> Seq<u8> {
    Seq::new(text.len() / 2, |i: int| pair_value(text[2 * i], text[2 * i + 1]))
}

/// Why a text is not the hexadecimal notation of a byte string.
#[derive(Debug, Clone, Copy, PartialEq, Eq)]
pub enum HexFault {
    /// The number of digits is odd.
    OddLength,
    /// The byte at `index` is no hexadecimal digit; `c` is that byte as a character.
    InvalidCharacter { c: char, index: usize },
}

/// The bytes that a hexadecimal text denotes.  An odd length is reported first,
/// and otherwise the first byte that is no digit.
pub open spec fn hex_decoded(text: Seq<u8>) -> Result<Seq<u8>, HexFault> {
    if text.len() % 2 != 0 {
        Err(HexFault::OddLength)
    } else if first_bad(text) < text.len() {
        Err(
            HexFault::InvalidCharacter {
                c: text[first_bad(text)] as char,
                index: first_bad(text) as usize,
            },
        )
    } else {
        Ok(hex_bytes(text))
    }
}

/// `hex::decode` turns pairs of digits of either case into bytes.  It refuses an
/// odd number of digits first, and otherwise reports the first byte that is no
/// digit together with its position.
#[verifier::external_body]
pub(crate) fn decode(s: &str) -> (r: Result<Vec<u8>, HexFault>)
    ensures
        match r {
            Ok(v) => hex_decoded(text::utf8(s@)) == Ok::<Seq<u8>, HexFault>(v@),
            Err(fault) => hex_decoded(text::utf8(s@)) == Err::<Seq<u8>, HexFault>(fault),
        },
{
    hex::decode(s).map_err(
        |e|
            match e {
                hex::FromHexError::InvalidHexCharacter { c, index } => HexFault::InvalidCharacter {
                    c,
                    index,
                },
                hex::FromHexError::OddLength => HexFault::OddLength,
                hex::FromHexError::InvalidStringLength => HexFault::OddLength,
            },
    )
}

/// The lower-case hexadecimal notation of a byte string.
pub open spec fn hex_notation(bytes: Seq<u8>) -> Seq<char> {
    Seq::new(
        2 * bytes.len(),
        |i: int|
            text::hex_digit(
                (if i % 2 == 0 {
                    bytes[i / 2] / 16
                } else {
                    bytes[i / 2] % 16
                }) as nat,
            ),
    )
}

/// `hex::encode` writes two lower-case digits for each byte.
#[verifier::external_body]
pub(crate) fn encode(bytes: &[u8]) -> (out: String)
    ensures
        out@ == hex_notation(bytes@),
{
    hex::encode(bytes)
}

/// What is said of a fault.
pub open spec fn fault_text(fault: HexFault) -> Seq<char> {
    match fault {
        HexFault::OddLength => "Odd number of digits"@,
        HexFault::InvalidCharacter { c, index } => "Invalid character "@ + text::debug_char_text(c)
            + " at position "@ + text::decimal_text(index as nat),
    }
}

impl HexFault {
    /// What is said of the fault.
    pub fn text(&self) -> (out: String)
        ensures
            out@ == fault_text(*self),
    {
        match self {
            HexFault::OddLength => "Odd number of digits".to_owned(),
            HexFault::InvalidCharacter { c, index } => {
                let mut out = "Invalid character ".to_owned();
                out.append(text::debug_char(*c).as_str());
                out.append(" at position ");
                out.append(text::decimal(*index as u64).as_str());
                out
            },
        }
    }
}

/// Whether `s` is a hexadecimal notation of a byte string, with digits of either case.
pub open spec fn notates(s: Seq<char>, bytes: Seq<u8>) -> bool {
    &&& s.len() == 2 * bytes.len()
    &&& forall|i: int|
        0 <= i < s.len() ==> nibble(#[trigger] s[i]) == Some(
            (if i % 2 == 0 {
                bytes[i / 2] / 16
            } else {
                bytes[i / 2] % 16
            }) as u8,
        )
}

/// What is written for a byte string is a notation of it.
pub proof fn written_notation(bytes: Seq<u8>)
    ensures
        notates(hex_notation(bytes), bytes),
{
}

/// A text of nothing but hexadecimal digits has no first bad byte.
pub proof fn all_digits(text: Seq<u8>)
    requires
        forall|i: int| 0 <= i < text.len() ==> digit_value(#[trigger] text[i]) is Some,
    ensures
        first_bad(text) == text.len(),
    decreases text.len(),
{
    if text.len() > 0 {
        assert(digit_value(text[0]) is Some);
        assert forall|i: int| 0 <= i < text.skip(1).len() implies digit_value(
            #[trigger] text.skip(1)[i],
        ) is Some by {
            assert(text.skip(1)[i] == text[i + 1]);
        }
        all_digits(text.skip(1));
    }
}

/// Reading a notation of a byte string gives back that byte string, whatever the case of
/// its digits.
pub proof fn notation_round_trip(s: Seq<char>, bytes: Seq<u8>)
    requires
        notates(s, bytes),
    ensures
        hex_decoded(text::utf8(s)) == Ok::<Seq<u8>, HexFault>(bytes),
{
    assert(vstd::utf8::is_ascii_chars(s));
    vstd::utf8::is_ascii_chars_encode_utf8(s);
    let text = text::utf8(s);
    assert forall|i: int| 0 <= i < text.len() implies digit_value(#[trigger] text[i]) is Some by {
        assert(text[i] == s[i] as u8);
    }
    all_digits(text);
    assert forall|i: int| 0 <= i < bytes.len() implies hex_bytes(text)[i] == bytes[i] by {
        assert((2 * i) / 2 == i && (2 * i) % 2 == 0);
        assert((2 * i + 1) / 2 == i && (2 * i + 1) % 2 == 1);
        assert(text[2 * i] == s[2 * i] as u8);
        assert(text[2 * i + 1] == s[2 * i + 1] as u8);
        assert(digit_value(text[2 * i]) == Some((bytes[i] / 16) as u8));
        assert(digit_value(text[2 * i + 1]) == Some((bytes[i] % 16) as u8));
        assert(16 * (bytes[i] / 16) + bytes[i] % 16 == bytes[i]);
    }
    assert(hex_bytes(text) =~= bytes);
}

/// The digits are `0` to `9` for the numbers below ten, and `a` to `f` and `A` to `F` for
/// those from ten on; nothing else is a digit.
pub proof fn digits_have_their_values(b: u8)
    ensures
        digit_value(b) matches Some(d) ==> {
            let lower = seq![
                0x30u8, 0x31, 0x32, 0x33, 0x34, 0x35, 0x36, 0x37, 0x38, 0x39, 0x61, 0x62, 0x63, 0x64,
                0x65, 0x66,
            ];
            let upper = seq![
                0x30u8, 0x31, 0x32, 0x33, 0x34, 0x35, 0x36, 0x37, 0x38, 0x39, 0x41, 0x42, 0x43, 0x44,
                0x45, 0x46,
            ];
            d < 16 && (b == lower[d as int] || b == upper[d as int])
        },
        digit_value(b) is None <==> b < 0x30 || 0x39 < b < 0x41 || 0x46 < b < 0x61 || 0x66 < b,
{
}

/// A pair of digits stands for the byte whose upper four bits the first one is.
pub proof fn pairs_have_their_values(hi: u8, lo: u8)
    requires
        digit_value(hi) is Some,
        digit_value(lo) is Some,
    ensures
        pair_value(hi, lo) / 16 == digit_value(hi)->0,
        pair_value(hi, lo) % 16 == digit_value(lo)->0,
{
    digits_have_their_values(hi);
    digits_have_their_values(lo);
}

/// What is written for a byte string is in lower case.
pub proof fn written_notation_is_lower_case(bytes: Seq<u8>)
    ensures
        forall|i: int|
            0 <= i < hex_notation(bytes).len() ==> {
                let c = #[trigger] hex_notation(bytes)[i];
                '0' <= c <= '9' || 'a' <= c <= 'f'
            },
{
}

/// The number that hexadecimal digits denote.
pub open spec fn hex_number(s: Seq<char>) -> nat
    decreases s.len(),
{
    if s.len() == 0 {
        0
    } else {
        16 * hex_number(s.drop_last()) + nibble(s.last())->0 as nat
    }
}

proof fn digits_read_back(n: nat, width: nat)
    requires
        text::hex_width(n) <= width,
    ensures
        hex_number(text::hex_text(n, width)) == n,
        text::hex_text(n, width).len() == width,
    decreases width,
{
    let s = text::hex_text(n, width);
    text::hexadecimals_have_their_width(n, width);
    if width > 0 {
        let d = n % 16;
        assert(nibble(text::hex_digit(d)) == Some(d as u8));
        if n >= 16 || width > 1 {
            digits_read_back(n / 16, (width - 1) as nat);
        } else {
            assert(text::hex_text(n / 16, 0).len() == 0);
        }
    }
}

/// A return value is shown as `0x` and at least eight hexadecimal digits, which read back
/// as that value; there are more than eight only where they are needed.
pub proof fn return_values_read_back(n: nat)
    ensures
        text::ckr_hex(n).len() >= 10,
        text::ckr_hex(n)[0] == '0' && text::ckr_hex(n)[1] == 'x',
        hex_number(text::ckr_hex(n).skip(2)) == n,
        text::ckr_hex(n).len() > 10 ==> text::ckr_hex(n).len() == 2 + text::hex_width(n),
{
    reveal_strlit("0x");
    let width = if text::hex_width(n) < 8 {
        8
    } else {
        text::hex_width(n)
    };
    digits_read_back(n, width);
    assert(text::ckr_hex(n).skip(2) =~= text::hex_text(n, width));
}

} // verus!
