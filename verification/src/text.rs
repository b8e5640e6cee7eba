//! Text: the pieces that messages and arguments are made of.
//!
//! Strings are modelled as `Seq<char>`.  Every message that the library
//! produces is specified as a concatenation of literals and of the texts that
//! the functions below render.

use vstd::prelude::*;

verus! {

// ---------------------------------------------------------------------------
// Trusted: functions of std
// ---------------------------------------------------------------------------

/// `String::push` appends the given character to the end of the string.
pub assume_specification[ String::push ](s: &mut String, c: char)
    ensures
        final(s)@ == old(s)@.push(c),
;

/// What `{:?}` writes for a string: the text in double quotes, escaped.
pub uninterp spec fn debug_text(s: Seq<char>) -> Seq<char>;

/// `format!` with `{:?}` on a `str`.  The result is named, not spelled out:
/// which characters are escaped is decided by tables inside std.
#[verifier::external_body]
pub(crate) fn debug_str(s: &str) -> (out: String)
    ensures
        out@ == debug_text(s@),
{
    format!("{s:?}")
}

/// What `{:?}` writes for a character: the character in single quotes, escaped.
pub uninterp spec fn debug_char_text(c: char) -> Seq<char>;

/// `format!` with `{:?}` on a `char`.  The result is named, for the same reason
/// as in [`debug_str`].
#[verifier::external_body]
pub(crate) fn debug_char(c: char) -> (out: String)
    ensures
        out@ == debug_char_text(c),
{
    format!("{c:?}")
}

/// Whether a character has Unicode's `White_Space` property: tab, line feed, vertical
/// tab, form feed, carriage return and the blank, and beyond ASCII the next line, the
/// spaces of every width, and the separators of lines and of paragraphs.
pub open spec fn white_space(c: char) -> bool {
    ||| '\u{9}' <= c <= '\u{d}'
    ||| c == '\u{20}'
    ||| c == '\u{85}'
    ||| c == '\u{a0}'
    ||| c == '\u{1680}'
    ||| '\u{2000}' <= c <= '\u{200a}'
    ||| c == '\u{2028}'
    ||| c == '\u{2029}'
    ||| c == '\u{202f}'
    ||| c == '\u{205f}'
    ||| c == '\u{3000}'
}

/// `char::is_whitespace` tests for the `White_Space` property.
pub assume_specification[ char::is_whitespace ](c: char) -> (r: bool)
    ensures
        r == white_space(c),
;

/// What `FromUtf8Error` says of a byte sequence that is not UTF-8.
pub uninterp spec fn utf8_error_text(bytes: Seq<u8>) -> Seq<char>;

/// `String::from_utf8` succeeds exactly on well-formed UTF-8, and the string
/// then has those bytes.  The text of the error is named.
#[verifier::external_body]
pub(crate) fn utf8_string(bytes: Vec<u8>) -> (r: Result<String, String>)
    ensures
        match r {
            Ok(s) => vstd::utf8::valid_utf8(bytes@) && s@ == vstd::utf8::decode_utf8(bytes@),
            Err(e) => !vstd::utf8::valid_utf8(bytes@) && e@ == utf8_error_text(bytes@),
        },
{
    String::from_utf8(bytes).map_err(|e| e.to_string())
}

// ---------------------------------------------------------------------------
// Strings and their characters
// ---------------------------------------------------------------------------

/// The bytes of a string: its UTF-8 encoding.
pub open spec fn utf8(s: Seq<char>) -> Seq<u8> {
    vstd::utf8::encode_utf8(s)
}

/// The bytes of `s`.
pub fn bytes_of(s: &str) -> (out: Vec<u8>)
    ensures
        out@ == utf8(s@),
{
    let bytes = s.as_bytes();
    let mut out: Vec<u8> = Vec::new();
    let mut i: usize = 0;
    while i < bytes.len()
        invariant
            i <= bytes.len(),
            out@ == bytes@.take(i as int),
        decreases bytes.len() - i,
    {
        out.push(bytes[i]);
        i += 1;
        assert(bytes@.take(i as int) =~= bytes@.take(i - 1).push(bytes@[i - 1]));
    }
    assert(bytes@.take(i as int) =~= bytes@);
    out
}

/// The characters of `s`, in order.
pub fn chars_of(s: &str) -> (out: Vec<char>)
    ensures
        out@ == s@,
{
    let mut out: Vec<char> = Vec::new();
    for c in it: s.chars()
        invariant
            it.seq() == s@,
            out@ == s@.take(it.index()),
    {
        out.push(c);
        assert(s@.take(it.index() + 1) =~= s@.take(it.index()).push(c));
    }
    assert(s@.take(s@.len() as int) =~= s@);
    out
}

/// The string made of `chars[from..to]`.
pub fn string_of(chars: &Vec<char>, from: usize, to: usize) -> (out: String)
    requires
        from <= to <= chars.len(),
    ensures
        out@ == chars@.subrange(from as int, to as int),
{
    let mut out = String::new();
    let mut i: usize = from;
    while i < to
        invariant
            from <= i <= to <= chars.len(),
            out@ == chars@.subrange(from as int, i as int),
        decreases to - i,
    {
        out.push(chars[i]);
        i += 1;
        assert(chars@.subrange(from as int, i as int) =~= chars@.subrange(
            from as int,
            i - 1,
        ).push(chars@[i - 1]));
    }
    out
}

/// Whether two strings have the same characters.
pub fn same_text(a: &str, b: &str) -> (r: bool)
    ensures
        r == (a@ == b@),
{
    a.to_owned() == b.to_owned()
}

/// `a` followed by `b`.
pub fn join2(a: &str, b: &str) -> (out: String)
    ensures
        out@ == a@ + b@,
{
    let mut out = a.to_owned();
    out.append(b);
    out
}

/// `a`, `b` and `c`, one after the other.
pub fn join3(a: &str, b: &str, c: &str) -> (out: String)
    ensures
        out@ == a@ + b@ + c@,
{
    let mut out = a.to_owned();
    out.append(b);
    out.append(c);
    out
}

/// Whether `chars` starts with `prefix`.
pub fn has_prefix(chars: &Vec<char>, prefix: &Vec<char>) -> (r: bool)
    ensures
        r == prefix@.is_prefix_of(chars@),
{
    if chars.len() < prefix.len() {
        return false;
    }
    let mut i: usize = 0;
    while i < prefix.len()
        invariant
            i <= prefix.len() <= chars.len(),
            prefix@.take(i as int) == chars@.take(i as int),
        decreases prefix.len() - i,
    {
        if chars[i] != prefix[i] {
            assert(prefix@[i as int] != chars@.subrange(0, prefix@.len() as int)[i as int]);
            return false;
        }
        i += 1;
        assert(prefix@.take(i as int) =~= prefix@.take(i - 1).push(prefix@[i - 1]));
        assert(chars@.take(i as int) =~= chars@.take(i - 1).push(chars@[i - 1]));
    }
    assert(prefix@.take(i as int) =~= prefix@);
    true
}

/// The index of the first `c` in `s`, or the length of `s` where there is none.
pub open spec fn position(s: Seq<char>, c: char) -> int
    decreases s.len(),
{
    if s.len() == 0 || s[0] == c {
        0
    } else {
        1 + position(s.drop_first(), c)
    }
}

/// [`position`] is the one index with no `c` before it and `c` (or the end) at it.
pub proof fn position_is_first(s: Seq<char>, c: char, i: int)
    requires
        0 <= i <= s.len(),
        forall|k: int| 0 <= k < i ==> s[k] != c,
        i < s.len() ==> s[i] == c,
    ensures
        position(s, c) == i,
    decreases s.len(),
{
    if s.len() > 0 && i > 0 {
        assert(s[0] != c);
        assert forall|k: int| 0 <= k < i - 1 implies s.drop_first()[k] != c by {
            assert(s.drop_first()[k] == s[k + 1]);
        }
        position_is_first(s.drop_first(), c, i - 1);
    }
}

/// The bounds of [`position`], and what stands at it.
pub proof fn position_bounds(s: Seq<char>, c: char)
    ensures
        0 <= position(s, c) <= s.len(),
        position(s, c) < s.len() ==> s[position(s, c)] == c,
        position(s, c) == s.len() <==> !s.contains(c),
    decreases s.len(),
{
    if s.len() > 0 {
        if s[0] == c {
            assert(s.contains(s[0]));
        } else {
            position_bounds(s.drop_first(), c);
            if s.contains(c) {
                let k = choose|k: int| 0 <= k < s.len() && s[k] == c;
                assert(s.drop_first()[k - 1] == c);
            }
            if s.drop_first().contains(c) {
                let k = choose|k: int| 0 <= k < s.drop_first().len() && s.drop_first()[k] == c;
                assert(s[k + 1] == c);
            }
        }
    }
}

/// The index of the first `c` in `chars[from..to]`, or `to` where there is none.
pub fn find_char(chars: &Vec<char>, c: char, from: usize, to: usize) -> (i: usize)
    requires
        from <= to <= chars.len(),
    ensures
        from <= i <= to,
        i - from == position(chars@.subrange(from as int, to as int), c),
{
    let ghost part = chars@.subrange(from as int, to as int);
    let mut i: usize = from;
    while i < to && chars[i] != c
        invariant
            from <= i <= to <= chars.len(),
            part == chars@.subrange(from as int, to as int),
            forall|k: int| 0 <= k < i - from ==> part[k] != c,
        decreases to - i,
    {
        i += 1;
    }
    proof {
        position_is_first(part, c, i - from);
    }
    i
}

/// `s` without the white space at its start.
pub open spec fn trimmed_start(s: Seq<char>) -> Seq<char>
    decreases s.len(),
{
    if s.len() > 0 && white_space(s[0]) {
        trimmed_start(s.drop_first())
    } else {
        s
    }
}

/// `s` without the white space at its end.
pub open spec fn trimmed_end(s: Seq<char>) -> Seq<char>
    decreases s.len(),
{
    if s.len() > 0 && white_space(s.last()) {
        trimmed_end(s.drop_last())
    } else {
        s
    }
}

/// `s` without the white space at its start and at its end.
pub open spec fn trimmed(s: Seq<char>) -> Seq<char> {
    trimmed_end(trimmed_start(s))
}

/// The first index of `chars[from..to]` that holds no white space.
fn skip_white_space(chars: &Vec<char>, from: usize, to: usize) -> (i: usize)
    requires
        from <= to <= chars.len(),
    ensures
        from <= i <= to,
        chars@.subrange(i as int, to as int) == trimmed_start(
            chars@.subrange(from as int, to as int),
        ),
{
    let mut i: usize = from;
    while i < to && chars[i].is_whitespace()
        invariant
            from <= i <= to <= chars.len(),
            trimmed_start(chars@.subrange(i as int, to as int)) == trimmed_start(
                chars@.subrange(from as int, to as int),
            ),
        decreases to - i,
    {
        assert(chars@.subrange(i as int, to as int).drop_first() =~= chars@.subrange(
            i + 1,
            to as int,
        ));
        i += 1;
    }
    i
}

/// The end of `chars[from..to]` without its trailing white space.
fn drop_white_space(chars: &Vec<char>, from: usize, to: usize) -> (i: usize)
    requires
        from <= to <= chars.len(),
    ensures
        from <= i <= to,
        chars@.subrange(from as int, i as int) == trimmed_end(
            chars@.subrange(from as int, to as int),
        ),
{
    let mut i: usize = to;
    while from < i && chars[i - 1].is_whitespace()
        invariant
            from <= i <= to <= chars.len(),
            trimmed_end(chars@.subrange(from as int, i as int)) == trimmed_end(
                chars@.subrange(from as int, to as int),
            ),
        decreases i,
    {
        assert(chars@.subrange(from as int, i as int).drop_last() =~= chars@.subrange(
            from as int,
            i - 1,
        ));
        i -= 1;
    }
    i
}

/// `s` without the white space at its start and at its end, as `str::trim`
/// gives it.
pub fn trim(s: &str) -> (out: String)
    ensures
        out@ == trimmed(s@),
{
    let chars = chars_of(s);
    let from: usize = skip_white_space(&chars, 0, chars.len());
    let to: usize = drop_white_space(&chars, from, chars.len());
    assert(chars@.subrange(0, chars@.len() as int) =~= s@);
    string_of(&chars, from, to)
}

// ---------------------------------------------------------------------------
// Numbers
// ---------------------------------------------------------------------------

/// The decimal digit of a number below ten.
pub open spec fn decimal_digit(n: nat) -> char {
    ('0' as u32 + n) as char
}

/// The decimal notation of a number, without leading zeros.
pub open spec fn decimal_text(n: nat) -> Seq<char>
    decreases n,
{
    if n < 10 {
        seq![decimal_digit(n)]
    } else {
        decimal_text(n / 10).push(decimal_digit(n % 10))
    }
}

/// The decimal notation of `n`.
pub fn decimal(n: u64) -> (out: String)
    ensures
        out@ == decimal_text(n as nat),
    decreases n,
{
    let mut out = if n < 10 {
        String::new()
    } else {
        decimal(n / 10)
    };
    let d: u8 = (n % 10) as u8;
    out.push((48u8 + d) as char);
    out
}

/// The lower-case hexadecimal digit of a number below sixteen.
pub open spec fn hex_digit(n: nat) -> char {
    if n < 10 {
        ('0' as u32 + n) as char
    } else {
        ('a' as u32 + (n - 10)) as char
    }
}

/// The lower-case hexadecimal digit of `n`.
fn lower_hex_digit(n: u8) -> (c: char)
    requires
        n < 16,
    ensures
        c == hex_digit(n as nat),
{
    if n < 10 {
        (48u8 + n) as char
    } else {
        (87u8 + n) as char
    }
}

/// The last `width` hexadecimal digits of a number, most significant first.
pub open spec fn hex_text(n: nat, width: nat) -> Seq<char>
    decreases width,
{
    if width == 0 {
        Seq::empty()
    } else {
        hex_text(n / 16, (width - 1) as nat).push(hex_digit(n % 16))
    }
}

/// The last `width` hexadecimal digits of `n`.
pub fn hex_digits(n: u64, width: usize) -> (out: String)
    ensures
        out@ == hex_text(n as nat, width as nat),
    decreases width,
{
    if width == 0 {
        String::new()
    } else {
        let mut out = hex_digits(n / 16, width - 1);
        let d: u8 = (n % 16) as u8;
        out.push(lower_hex_digit(d));
        out
    }
}

/// How many hexadecimal digits a number has (one for zero).
pub open spec fn hex_width(n: nat) -> nat
    decreases n,
{
    if n < 16 {
        1
    } else {
        1 + hex_width(n / 16)
    }
}

/// A number below 16^k has at most k hexadecimal digits.
proof fn hex_width_bound(n: nat, k: nat)
    requires
        0 < k,
        n < vstd::arithmetic::power::pow(16, k),
    ensures
        hex_width(n) <= k,
    decreases k,
{
    reveal_with_fuel(vstd::arithmetic::power::pow, 2);
    if n >= 16 {
        hex_width_bound(n / 16, (k - 1) as nat);
    }
}

/// How many hexadecimal digits `n` has.
pub fn hex_length(n: u64) -> (w: usize)
    ensures
        w == hex_width(n as nat),
{
    let mut rest: u64 = n;
    let mut w: usize = 1;
    proof {
        reveal_with_fuel(vstd::arithmetic::power::pow, 17);
        hex_width_bound(n as nat, 16);
    }
    while rest >= 16
        invariant
            hex_width(n as nat) <= 16,
            w + hex_width(rest as nat) == 1 + hex_width(n as nat),
        decreases rest,
    {
        rest = rest / 16;
        w += 1;
    }
    w
}

/// What `{:#010x}` writes: `0x` and at least eight hexadecimal digits.
pub open spec fn ckr_hex(n: nat) -> Seq<char> {
    "0x"@ + hex_text(n, if hex_width(n) < 8 { 8 } else { hex_width(n) })
}

/// `n` as `{:#010x}` writes it.
pub fn padded_hex(n: u64) -> (out: String)
    ensures
        out@ == ckr_hex(n as nat),
{
    let w: usize = hex_length(n);
    let digits = hex_digits(n, if w < 8 { 8 } else { w });
    join2("0x", digits.as_str())
}

/// What `{:?}` writes for a list of bytes: decimal numbers in square brackets.
pub open spec fn byte_list_text(bytes: Seq<u8>) -> Seq<char> {
    "["@ + byte_items_text(bytes) + "]"@
}

/// The decimal notations of the bytes, separated by a comma and a blank.
pub open spec fn byte_items_text(bytes: Seq<u8>) -> Seq<char>
    decreases bytes.len(),
{
    if bytes.len() == 0 {
        Seq::empty()
    } else if bytes.len() == 1 {
        decimal_text(bytes[0] as nat)
    } else {
        byte_items_text(bytes.drop_last()) + ", "@ + decimal_text(bytes.last() as nat)
    }
}

/// `bytes` as `{:?}` writes it.
pub fn byte_list(bytes: &[u8]) -> (out: String)
    ensures
        out@ == byte_list_text(bytes@),
{
    let mut items = String::new();
    let mut i: usize = 0;
    while i < bytes.len()
        invariant
            i <= bytes.len(),
            items@ == byte_items_text(bytes@.take(i as int)),
        decreases bytes.len() - i,
    {
        if i > 0 {
            items.append(", ");
        }
        items.append(decimal(bytes[i] as u64).as_str());
        i += 1;
        assert(bytes@.take(i as int).drop_last() =~= bytes@.take(i - 1));
        if i == 1 {
            assert(bytes@.take(0) =~= Seq::empty());
            assert(items@ =~= decimal_text(bytes@[0] as nat));
        }
    }
    assert(bytes@.take(i as int) =~= bytes@);
    join3("[", items.as_str(), "]")
}

// ---------------------------------------------------------------------------
// Laws
// ---------------------------------------------------------------------------

/// Whether a text is white space throughout.
pub open spec fn is_blank(s: Seq<char>) -> bool {
    forall|i: int| 0 <= i < s.len() ==> white_space(#[trigger] s[i])
}

proof fn start_is_trimmed(before: Seq<char>, s: Seq<char>)
    requires
        is_blank(before),
        s.len() == 0 || !white_space(s[0]),
    ensures
        trimmed_start(before + s) == s,
    decreases before.len(),
{
    if before.len() > 0 {
        assert((before + s)[0] == before[0]);
        assert((before + s).drop_first() =~= before.drop_first() + s);
        start_is_trimmed(before.drop_first(), s);
    } else {
        assert(before + s =~= s);
    }
}

proof fn end_is_trimmed(s: Seq<char>, after: Seq<char>)
    requires
        is_blank(after),
        s.len() == 0 || !white_space(s.last()),
    ensures
        trimmed_end(s + after) == s,
    decreases after.len(),
{
    if after.len() > 0 {
        assert((s + after).last() == after[after.len() - 1]);
        assert((s + after).drop_last() =~= s + after.drop_last());
        end_is_trimmed(s, after.drop_last());
    } else {
        assert(s + after =~= s);
    }
}

/// Trimming takes off the white space around a text, all of it, and leaves the white space
/// inside.
pub proof fn trimming_keeps_the_core(before: Seq<char>, core: Seq<char>, after: Seq<char>)
    requires
        is_blank(before),
        is_blank(after),
        core.len() > 0 ==> !white_space(core[0]) && !white_space(core.last()),
    ensures
        trimmed(before + core + after) == core,
{
    if core.len() > 0 {
        assert(before + core + after =~= before + (core + after));
        start_is_trimmed(before, core + after);
        end_is_trimmed(core, after);
    } else {
        let all = before + core + after;
        assert(is_blank(all));
        assert(all + core =~= all);
        start_is_trimmed(all, core);
        assert(core =~= Seq::empty());
    }
}

/// The value of a decimal digit.
pub open spec fn decimal_digit_value(c: char) -> nat {
    match c {
        '1' => 1,
        '2' => 2,
        '3' => 3,
        '4' => 4,
        '5' => 5,
        '6' => 6,
        '7' => 7,
        '8' => 8,
        '9' => 9,
        _ => 0,
    }
}

/// The number that decimal digits denote.
pub open spec fn decimal_value(s: Seq<char>) -> nat
    decreases s.len(),
{
    if s.len() == 0 {
        0
    } else {
        10 * decimal_value(s.drop_last()) + decimal_digit_value(s.last())
    }
}

proof fn decimal_digit_is_read(n: nat)
    requires
        n < 10,
    ensures
        decimal_digit_value(decimal_digit(n)) == n,
        '0' <= decimal_digit(n) <= '9',
        n > 0 ==> decimal_digit(n) != '0',
{
    assert(n == 0 || n == 1 || n == 2 || n == 3 || n == 4 || n == 5 || n == 6 || n == 7 || n == 8
        || n == 9);
}

/// The decimal notation of a number consists of digits, reads back as that number, and has
/// no leading zero but for the number zero.
pub proof fn decimals_read_back(n: nat)
    ensures
        decimal_value(decimal_text(n)) == n,
        decimal_text(n).len() > 0,
        forall|i: int|
            0 <= i < decimal_text(n).len() ==> '0' <= #[trigger] decimal_text(n)[i] <= '9',
        n > 0 ==> decimal_text(n)[0] != '0',
        n == 0 ==> decimal_text(n) == seq!['0'],
    decreases n,
{
    let s = decimal_text(n);
    decimal_digit_is_read(n % 10);
    if n < 10 {
        decimal_digit_is_read(n);
        assert(s.drop_last() =~= Seq::empty());
        assert(decimal_value(s.drop_last()) == 0);
        assert(s.last() == decimal_digit(n));
    } else {
        let head = decimal_text(n / 10);
        decimals_read_back(n / 10);
        assert(s.drop_last() =~= head);
        assert(s[0] == head[0]);
        assert forall|i: int| 0 <= i < s.len() implies '0' <= #[trigger] s[i] <= '9' by {
            if i < head.len() {
                assert(s[i] == head[i]);
            }
        }
    }
}

/// The digits of a hexadecimal number of a fixed width are those of its remainder: as many
/// as the width, and the last one is that of the lowest four bits.
pub proof fn hexadecimals_have_their_width(n: nat, width: nat)
    ensures
        hex_text(n, width).len() == width,
        width > 0 ==> hex_text(n, width).last() == hex_digit(n % 16),
        width > 0 ==> hex_text(n, width).drop_last() == hex_text(n / 16, (width - 1) as nat),
    decreases width,
{
    if width > 0 {
        hexadecimals_have_their_width(n / 16, (width - 1) as nat);
        assert(hex_text(n, width).drop_last() =~= hex_text(n / 16, (width - 1) as nat));
    }
}

} // verus!
