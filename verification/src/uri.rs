//! PKCS#11 URIs (RFC 7512), as far as they select a key.

use vstd::prelude::*;

use crate::error;
use crate::error::Error;
use crate::hexcode;
use crate::text;

verus! {

// ---------------------------------------------------------------------------
// Percent encoding
// ---------------------------------------------------------------------------

/// Why a percent-encoded value cannot be decoded.
pub enum PercentFault {
    /// Fewer than two characters follow a `%`.
    Truncated,
    /// A byte after a `%` is no hexadecimal digit.
    BadDigit(u8),
}

/// The bytes that a percent-encoded value stands for: `%` and two hexadecimal
/// digits stand for one byte, every other byte for itself.  The fault is the
/// leftmost one.
pub open spec fn percent_decoded(value: Seq<u8>) -> Result<Seq<u8>, PercentFault>
    decreases value.len(),
{
    if value.len() == 0 {
        Ok(Seq::empty())
    } else if value[0] != 0x25 {
        after(seq![value[0]], percent_decoded(value.skip(1)))
    } else if value.len() < 3 {
        Err(PercentFault::Truncated)
    } else if hexcode::digit_value(value[1]) is None {
        Err(PercentFault::BadDigit(value[1]))
    } else if hexcode::digit_value(value[2]) is None {
        Err(PercentFault::BadDigit(value[2]))
    } else {
        after(
            seq![hexcode::pair_value(value[1], value[2])],
            percent_decoded(value.skip(3)),
        )
    }
}

/// `head` put before the bytes that were decoded.
pub open spec fn after(head: Seq<u8>, rest: Result<Seq<u8>, PercentFault>) -> Result<
    Seq<u8>,
    PercentFault,
> {
    match rest {
        Ok(tail) => Ok(head + tail),
        Err(fault) => Err(fault),
    }
}

/// What is said of a fault in the value `s`.
pub open spec fn percent_fault_text(s: Seq<char>, fault: PercentFault) -> Seq<char> {
    match fault {
        PercentFault::Truncated => "truncated percent-encoded sequence in URI value "@
            + text::debug_text(s) + " (need two hex digits after '%')"@,
        PercentFault::BadDigit(b) => "invalid hex digit after '%' in URI value "@
            + text::debug_text(s) + ": "@ + text::debug_char_text(b as char),
    }
}

/// The bytes that the value `s` stands for, or what is said of its fault.
pub open spec fn binary_value(s: Seq<char>) -> Result<Seq<u8>, Seq<char>> {
    match percent_decoded(text::utf8(s)) {
        Ok(bytes) => Ok(bytes),
        Err(fault) => Err(percent_fault_text(s, fault)),
    }
}

/// The error for a `%` that fewer than two characters follow.
fn truncated_escape(s: &str) -> (e: Error)
    ensures
        e@ == error::ErrorView::Other(percent_fault_text(s@, PercentFault::Truncated)),
{
    Error::Other(
        text::join3(
            "truncated percent-encoded sequence in URI value ",
            text::debug_str(s).as_str(),
            " (need two hex digits after '%')",
        ),
    )
}

/// The error for a byte `b` after a `%` that is no hexadecimal digit.
fn bad_escape(s: &str, b: u8) -> (e: Error)
    ensures
        e@ == error::ErrorView::Other(percent_fault_text(s@, PercentFault::BadDigit(b))),
{
    let mut message = text::join3(
        "invalid hex digit after '%' in URI value ",
        text::debug_str(s).as_str(),
        ": ",
    );
    message.append(text::debug_char(b as char).as_str());
    Error::Other(message)
}

/// Percent-decodes a value to bytes.
///
/// The `id` attribute needs this: `CKA_ID` is binary, so that its bytes must not
/// pass through a string.  Malformed escapes are refused.
pub fn percent_decode_bytes(s: &str) -> (r: Result<Vec<u8>, Error>)
    ensures
        match binary_value(s@) {
            Ok(bytes) => r matches Ok(v) && v@ == bytes,
            Err(message) => error::fails_with(r, error::ErrorView::Other(message)),
        },
{
    let bytes = s.as_bytes();
    let mut out: Vec<u8> = Vec::new();
    let mut i: usize = 0;
    assert(bytes@.skip(0) =~= bytes@);
    assert(forall|t: Seq<u8>| #[trigger] (Seq::<u8>::empty() + t) =~= t);
    while i < bytes.len()
        invariant
            i <= bytes.len(),
            bytes@ == text::utf8(s@),
            percent_decoded(bytes@) == after(out@, percent_decoded(bytes@.skip(i as int))),
        decreases bytes.len() - i,
    {
        let ghost rest = bytes@.skip(i as int);
        let ghost before = out@;
        assert(rest[0] == bytes@[i as int]);
        if bytes[i] == 0x25 {
            if bytes.len() - i < 3 {
                return Err(truncated_escape(s));
            }
            assert(rest[1] == bytes@[i + 1] && rest[2] == bytes@[i + 2]);
            let hi: u8 = match hexcode::hex_digit_value(bytes[i + 1]) {
                Some(d) => d,
                None => {
                    return Err(bad_escape(s, bytes[i + 1]));
                },
            };
            let lo: u8 = match hexcode::hex_digit_value(bytes[i + 2]) {
                Some(d) => d,
                None => {
                    return Err(bad_escape(s, bytes[i + 2]));
                },
            };
            out.push(hi * 16 + lo);
            assert(rest.skip(3) =~= bytes@.skip(i + 3));
            assert(forall|t: Seq<u8>| #[trigger] (out@ + t) =~= before + (seq![out@.last()] + t));
            i += 3;
        } else {
            out.push(bytes[i]);
            assert(rest.skip(1) =~= bytes@.skip(i + 1));
            assert(forall|t: Seq<u8>| #[trigger] (out@ + t) =~= before + (seq![out@.last()] + t));
            i += 1;
        }
    }
    assert(bytes@.skip(i as int) =~= Seq::empty());
    assert(out@ + Seq::empty() =~= out@);
    Ok(out)
}

/// The text that the value `s` stands for, or what is said of its fault.
pub open spec fn text_value(s: Seq<char>) -> Result<Seq<char>, Seq<char>> {
    match binary_value(s) {
        Ok(bytes) => if vstd::utf8::valid_utf8(bytes) {
            Ok(vstd::utf8::decode_utf8(bytes))
        } else {
            Err(
                "URI value "@ + text::debug_text(s) + " is not valid UTF-8: "@
                    + text::utf8_error_text(bytes),
            )
        },
        Err(message) => Err(message),
    }
}

/// Percent-decodes a value to text.
///
/// The escapes are decoded byte by byte, so that a sequence such as `%C3%A9`
/// gives one character; what comes out must be UTF-8.
pub fn percent_decode(s: &str) -> (r: Result<String, Error>)
    ensures
        match text_value(s@) {
            Ok(t) => r matches Ok(v) && v@ == t,
            Err(message) => error::fails_with(r, error::ErrorView::Other(message)),
        },
{
    let bytes = match percent_decode_bytes(s) {
        Ok(bytes) => bytes,
        Err(e) => {
            return Err(e);
        },
    };
    match text::utf8_string(bytes) {
        Ok(t) => Ok(t),
        Err(e) => {
            let mut message = text::join3(
                "URI value ",
                text::debug_str(s).as_str(),
                " is not valid UTF-8: ",
            );
            message.append(e.as_str());
            Err(Error::Other(message))
        },
    }
}

/// The bytes of an `id` value, which is percent-encoded where it holds a `%` and
/// hexadecimal otherwise.
pub open spec fn id_value(s: Seq<char>) -> Result<Seq<u8>, Seq<char>> {
    if s.contains('%') {
        binary_value(s)
    } else {
        match hexcode::hex_decoded(text::utf8(s)) {
            Ok(bytes) => Ok(bytes),
            Err(fault) => Err("invalid key id hex: "@ + hexcode::fault_text(fault)),
        }
    }
}

/// Reads an `id` value.  The raw value is needed: a `%` in it tells the
/// percent-encoded form from the hexadecimal one.
pub fn parse_id_bytes(s: &str) -> (r: Result<Vec<u8>, Error>)
    ensures
        match id_value(s@) {
            Ok(bytes) => r matches Ok(v) && v@ == bytes,
            Err(message) => error::fails_with(r, error::ErrorView::Other(message)),
        },
{
    let chars = text::chars_of(s);
    let at: usize = text::find_char(&chars, '%', 0, chars.len());
    proof {
        assert(chars@.subrange(0, chars@.len() as int) =~= s@);
        text::position_bounds(s@, '%');
    }
    if at < chars.len() {
        percent_decode_bytes(s)
    } else {
        match hexcode::decode(s) {
            Ok(bytes) => Ok(bytes),
            Err(fault) => Err(
                Error::Other(text::join2("invalid key id hex: ", fault.text().as_str())),
            ),
        }
    }
}

// ---------------------------------------------------------------------------
// URIs
// ---------------------------------------------------------------------------

/// The part of a PKCS#11 URI that selects a key.
#[derive(Debug)]
pub struct Pkcs11Uri {
    pub token_label: Option<String>,
    pub object_label: Option<String>,
    pub key_id: Option<Vec<u8>>,
}

/// The mathematical content of a [`Pkcs11Uri`].
pub struct UriView {
    pub token_label: Option<Seq<char>>,
    pub object_label: Option<Seq<char>>,
    pub key_id: Option<Seq<u8>>,
}

impl View for Pkcs11Uri {
    type V = UriView;

    open spec fn view(&self) -> UriView {
        UriView {
            token_label: match self.token_label {
                Some(t) => Some(t@),
                None => None,
            },
            object_label: match self.object_label {
                Some(t) => Some(t@),
                None => None,
            },
            key_id: match self.key_id {
                Some(v) => Some(v@),
                None => None,
            },
        }
    }
}

impl Clone for Pkcs11Uri {
    fn clone(&self) -> (u: Self)
        ensures
            u@ == self@,
    {
        Pkcs11Uri {
            token_label: match &self.token_label {
                Some(t) => Some(t.clone()),
                None => None,
            },
            object_label: match &self.object_label {
                Some(t) => Some(t.clone()),
                None => None,
            },
            key_id: match &self.key_id {
                Some(v) => Some(vstd::slice::slice_to_vec(v.as_slice())),
                None => None,
            },
        }
    }
}

/// A URI without any attribute.
pub open spec fn empty_uri() -> UriView {
    UriView { token_label: None, object_label: None, key_id: None }
}

impl Default for Pkcs11Uri {
    fn default() -> (uri: Self)
        ensures
            uri@ == empty_uri(),
    {
        Pkcs11Uri { token_label: None, object_label: None, key_id: None }
    }
}

/// What is said of a `type` attribute other than `private`.
pub open spec fn bad_type_text(value: Seq<char>) -> Seq<char> {
    "PKCS#11 URI attribute type="@ + text::debug_text(value)
        + " is incompatible with sq-pkcs11; sq-pkcs11 always operates on private signing keys, so only type=private (or omitting type=) is accepted"@
}

/// `uri` with the attribute that `part` states, `name=value`.  Attributes with
/// other names, and parts without a `=`, are ignored.
pub open spec fn with_attribute(uri: UriView, part: Seq<char>) -> Result<UriView, Seq<char>> {
    let n = text::position(part, '=');
    let name = part.take(n);
    let value = part.skip(n + 1);
    if n == part.len() {
        Ok(uri)
    } else if name == "token"@ {
        match text_value(value) {
            Ok(t) => Ok(UriView { token_label: Some(t), ..uri }),
            Err(message) => Err(message),
        }
    } else if name == "object"@ {
        match text_value(value) {
            Ok(t) => Ok(UriView { object_label: Some(t), ..uri }),
            Err(message) => Err(message),
        }
    } else if name == "id"@ {
        match id_value(value) {
            Ok(bytes) => Ok(UriView { key_id: Some(bytes), ..uri }),
            Err(message) => Err(message),
        }
    } else if name == "type"@ && value != "private"@ {
        Err(bad_type_text(value))
    } else {
        Ok(uri)
    }
}

/// `uri` with the attributes of `s`, which semicolons separate, from left to right.
pub open spec fn with_attributes(uri: UriView, s: Seq<char>) -> Result<UriView, Seq<char>>
    decreases s.len(),
{
    let n = text::position(s, ';');
    match with_attribute(uri, s.take(n)) {
        Err(message) => Err(message),
        Ok(next) => if 0 <= n < s.len() {
            with_attributes(next, s.skip(n + 1))
        } else {
            Ok(next)
        },
    }
}

/// What the text of a URI stands for.
pub open spec fn uri_of(s: Seq<char>) -> Result<UriView, Seq<char>> {
    if "pkcs11:"@.is_prefix_of(s) {
        with_attributes(empty_uri(), s.skip(7))
    } else {
        Err("not a PKCS#11 URI (must start with 'pkcs11:')"@)
    }
}

impl Pkcs11Uri {
    /// Sets the attribute that `chars[from..to]` states.
    fn set_attribute(self, chars: &Vec<char>, from: usize, to: usize) -> (r: Result<Self, Error>)
        requires
            from <= to <= chars.len(),
        ensures
            match with_attribute(self@, chars@.subrange(from as int, to as int)) {
                Ok(uri) => r matches Ok(u) && u@ == uri,
                Err(message) => error::fails_with(r, error::ErrorView::Other(message)),
            },
    {
        let ghost part = chars@.subrange(from as int, to as int);
        let eq: usize = text::find_char(chars, '=', from, to);
        if eq == to {
            return Ok(self);
        }
        let name = text::string_of(chars, from, eq);
        let value = text::string_of(chars, eq + 1, to);
        assert(part.take(eq - from) =~= name@);
        assert(part.skip(eq - from + 1) =~= value@);
        let mut uri = self;
        if text::same_text(name.as_str(), "token") {
            match percent_decode(value.as_str()) {
                Ok(t) => {
                    uri.token_label = Some(t);
                },
                Err(e) => {
                    return Err(e);
                },
            }
        } else if text::same_text(name.as_str(), "object") {
            match percent_decode(value.as_str()) {
                Ok(t) => {
                    uri.object_label = Some(t);
                },
                Err(e) => {
                    return Err(e);
                },
            }
        } else if text::same_text(name.as_str(), "id") {
            match parse_id_bytes(value.as_str()) {
                Ok(bytes) => {
                    uri.key_id = Some(bytes);
                },
                Err(e) => {
                    return Err(e);
                },
            }
        } else if text::same_text(name.as_str(), "type") {
            // Only private keys are ever looked up, so that any other type
            // contradicts what will happen.
            if !text::same_text(value.as_str(), "private") {
                return Err(
                    Error::Other(
                        text::join3(
                            "PKCS#11 URI attribute type=",
                            text::debug_str(value.as_str()).as_str(),
                            " is incompatible with sq-pkcs11; sq-pkcs11 always operates on private signing keys, so only type=private (or omitting type=) is accepted",
                        ),
                    ),
                );
            }
        }
        Ok(uri)
    }

    /// Reads the text of a URI.
    pub fn parse_text(s: &str) -> (r: Result<Self, Error>)
        ensures
            match uri_of(s@) {
                Ok(uri) => r matches Ok(u) && u@ == uri,
                Err(message) => error::fails_with(r, error::ErrorView::Other(message)),
            },
    {
        let chars = text::chars_of(s);
        let prefix = text::chars_of("pkcs11:");
        proof {
            reveal_strlit("pkcs11:");
        }
        if !text::has_prefix(&chars, &prefix) {
            return Err(Error::Other("not a PKCS#11 URI (must start with 'pkcs11:')".to_owned()));
        }
        let mut uri: Pkcs11Uri = Default::default();
        let mut from: usize = 7;
        assert(s@.skip(7) =~= chars@.skip(7));
        loop
            invariant
                chars@ == s@,
                from <= chars.len(),
                uri_of(s@) == with_attributes(uri@, chars@.skip(from as int)),
            decreases chars.len() - from,
        {
            let ghost rest = chars@.skip(from as int);
            let end: usize = text::find_char(&chars, ';', from, chars.len());
            assert(chars@.subrange(from as int, chars@.len() as int) =~= rest);
            assert(chars@.subrange(from as int, end as int) =~= rest.take(end - from));
            uri = match uri.set_attribute(&chars, from, end) {
                Ok(next) => next,
                Err(e) => {
                    return Err(e);
                },
            };
            if end == chars.len() {
                return Ok(uri);
            }
            assert(rest.skip(end - from + 1) =~= chars@.skip(end + 1));
            from = end + 1;
        }
    }
}

impl core::str::FromStr for Pkcs11Uri {
    type Err = Error;

    fn from_str(s: &str) -> (r: Result<Self, Error>)
        ensures
            match uri_of(s@) {
                Ok(uri) => r matches Ok(u) && u@ == uri,
                Err(message) => error::fails_with(r, error::ErrorView::Other(message)),
            },
    {
        Pkcs11Uri::parse_text(s)
    }
}

// ---------------------------------------------------------------------------
// Laws
// ---------------------------------------------------------------------------

/// Whether `s` is the value in which every byte is escaped, with digits of either case.
pub open spec fn is_escaped(s: Seq<char>, bytes: Seq<u8>) -> bool
    decreases bytes.len(),
{
    if bytes.len() == 0 {
        s.len() == 0
    } else {
        &&& s.len() >= 3
        &&& s[0] == '%'
        &&& hexcode::nibble(s[1]) == Some((bytes[0] / 16) as u8)
        &&& hexcode::nibble(s[2]) == Some((bytes[0] % 16) as u8)
        &&& is_escaped(s.skip(3), bytes.skip(1))
    }
}

/// The codes of ASCII characters, one byte each.
spec fn ascii_codes(s: Seq<char>) -> Seq<u8> {
    Seq::new(s.len(), |i: int| s[i] as u8)
}

proof fn escaped_is_ascii(s: Seq<char>, bytes: Seq<u8>)
    requires
        is_escaped(s, bytes),
    ensures
        vstd::utf8::is_ascii_chars(s),
        text::utf8(s) == ascii_codes(s),
    decreases bytes.len(),
{
    if bytes.len() > 0 {
        escaped_is_ascii(s.skip(3), bytes.skip(1));
        assert forall|i: int| 0 <= i < s.len() implies '\0' <= #[trigger] s[i] <= '\u{7f}' by {
            if i >= 3 {
                assert(s[i] == s.skip(3)[i - 3]);
                assert(vstd::utf8::is_ascii_chars(s.skip(3)));
            }
        }
        assert(vstd::utf8::is_ascii_chars(s));
    }
    vstd::utf8::is_ascii_chars_encode_utf8(s);
    assert(text::utf8(s) =~= ascii_codes(s));
}

proof fn decode_escaped(s: Seq<char>, bytes: Seq<u8>)
    requires
        is_escaped(s, bytes),
    ensures
        percent_decoded(ascii_codes(s)) == Ok::<Seq<u8>, PercentFault>(bytes),
    decreases bytes.len(),
{
    let value = ascii_codes(s);
    if bytes.len() > 0 {
        let tail = bytes.skip(1);
        decode_escaped(s.skip(3), tail);
        assert(value.skip(3) =~= ascii_codes(s.skip(3)));
        assert(value[0] == 0x25);
        assert(hexcode::digit_value(value[1]) == Some((bytes[0] / 16) as u8));
        assert(hexcode::digit_value(value[2]) == Some((bytes[0] % 16) as u8));
        assert(16 * (bytes[0] / 16) + bytes[0] % 16 == bytes[0]);
        assert(seq![bytes[0]] + tail =~= bytes);
    } else {
        assert(bytes =~= Seq::empty());
        assert(value =~= Seq::empty());
    }
}

/// Escaping every byte of a byte string and decoding the result gives back the
/// byte string, whatever its bytes and the case of the digits are: bytes from 0x80 on are
/// not expanded.
pub proof fn percent_round_trip(s: Seq<char>, bytes: Seq<u8>)
    requires
        is_escaped(s, bytes),
    ensures
        binary_value(s) == Ok::<Seq<u8>, Seq<char>>(bytes),
{
    escaped_is_ascii(s, bytes);
    decode_escaped(s, bytes);
}

/// Escaping the UTF-8 bytes of a text and decoding the result gives back the text.
pub proof fn percent_text_round_trip(s: Seq<char>, t: Seq<char>)
    requires
        is_escaped(s, text::utf8(t)),
    ensures
        text_value(s) == Ok::<Seq<char>, Seq<char>>(t),
{
    percent_round_trip(s, text::utf8(t));
    vstd::utf8::encode_utf8_valid_utf8(t);
    vstd::utf8::encode_utf8_decode_utf8(t);
}

proof fn decode_plain(value: Seq<u8>)
    requires
        forall|i: int| 0 <= i < value.len() ==> #[trigger] value[i] != 0x25,
    ensures
        percent_decoded(value) == Ok::<Seq<u8>, PercentFault>(value),
    decreases value.len(),
{
    if value.len() > 0 {
        assert forall|i: int| 0 <= i < value.skip(1).len() implies #[trigger] value.skip(1)[i]
            != 0x25 by {
            assert(value.skip(1)[i] == value[i + 1]);
        }
        assert(value[0] != 0x25);
        decode_plain(value.skip(1));
        assert(seq![value[0]] + value.skip(1) =~= value);
    } else {
        assert(value =~= Seq::empty());
    }
}

/// An ASCII value without a `%` stands for itself.
pub proof fn plain_value_stands_for_itself(s: Seq<char>)
    requires
        vstd::utf8::is_ascii_chars(s),
        !s.contains('%'),
    ensures
        text_value(s) == Ok::<Seq<char>, Seq<char>>(s),
{
    vstd::utf8::is_ascii_chars_encode_utf8(s);
    let value = text::utf8(s);
    assert forall|i: int| 0 <= i < value.len() implies #[trigger] value[i] != 0x25 by {
        assert(value[i] == s[i] as u8);
        assert(s.contains(s[i]));
    }
    decode_plain(value);
    vstd::utf8::encode_utf8_valid_utf8(s);
    vstd::utf8::encode_utf8_decode_utf8(s);
}

/// The two notations of an `id`, percent-encoded and hexadecimal, stand for the
/// same bytes.
pub proof fn id_notations_agree(escaped: Seq<char>, digits: Seq<char>, bytes: Seq<u8>)
    requires
        is_escaped(escaped, bytes),
        hexcode::notates(digits, bytes),
    ensures
        id_value(escaped) == Ok::<Seq<u8>, Seq<char>>(bytes),
        id_value(digits) == Ok::<Seq<u8>, Seq<char>>(bytes),
{
    percent_round_trip(escaped, bytes);
    hexcode::notation_round_trip(digits, bytes);
    assert forall|i: int| 0 <= i < digits.len() implies #[trigger] digits[i] != '%' by {
        assert(hexcode::nibble(digits[i]) is Some);
    }
    if bytes.len() == 0 {
        assert(escaped =~= digits);
    } else {
        assert(escaped[0] == '%');
        assert(escaped.contains('%'));
    }
}

/// An attribute that is none of `token`, `object`, `id` and `type` changes nothing.
pub proof fn other_attributes_are_ignored(uri: UriView, name: Seq<char>, value: Seq<char>)
    requires
        !name.contains('='),
        name != "token"@,
        name != "object"@,
        name != "id"@,
        name != "type"@,
    ensures
        with_attribute(uri, name + seq!['='] + value) == Ok::<UriView, Seq<char>>(uri),
{
    let part = name + seq!['='] + value;
    assert forall|k: int| 0 <= k < name.len() implies part[k] != '=' by {
        assert(name.contains(name[k]));
    }
    text::position_is_first(part, '=', name.len() as int);
    assert(part.take(name.len() as int) =~= name);
}

/// Whether `part` is one of the attributes of `s`.
pub open spec fn states(s: Seq<char>, part: Seq<char>) -> bool
    decreases s.len(),
{
    let n = text::position(s, ';');
    s.take(n) == part || (0 <= n < s.len() && states(s.skip(n + 1), part))
}

proof fn refused_part(uri: UriView, s: Seq<char>, part: Seq<char>)
    requires
        states(s, part),
        forall|u: UriView| #[trigger] with_attribute(u, part) is Err,
    ensures
        with_attributes(uri, s) is Err,
    decreases s.len(),
{
    let n = text::position(s, ';');
    if s.take(n) == part {
        assert(with_attribute(uri, part) is Err);
    } else {
        match with_attribute(uri, s.take(n)) {
            Ok(next) => {
                refused_part(next, s.skip(n + 1), part);
            },
            Err(message) => {},
        }
    }
}

/// A URI that states any type but `private`, wherever it does so, is refused.
pub proof fn other_types_are_refused(s: Seq<char>, value: Seq<char>)
    requires
        states(s, "type="@ + value),
        value != "private"@,
    ensures
        uri_of("pkcs11:"@ + s) is Err,
{
    reveal_strlit("type=");
    reveal_strlit("type");
    reveal_strlit("token");
    reveal_strlit("object");
    reveal_strlit("id");
    reveal_strlit("pkcs11:");
    let part = "type="@ + value;
    text::position_is_first(part, '=', 4);
    assert(part.take(4) =~= "type"@);
    assert(part.skip(5) =~= value);
    assert(part.take(4).len() == 4);
    assert forall|u: UriView| #[trigger] with_attribute(u, part) is Err by {
        assert("token"@.len() == 5 && "object"@.len() == 6 && "id"@.len() == 2);
    }
    let whole = "pkcs11:"@ + s;
    assert("pkcs11:"@ =~= whole.take(7));
    assert(whole.skip(7) =~= s);
    refused_part(empty_uri(), s, part);
}

proof fn decode_joined(a: Seq<u8>, b: Seq<u8>)
    requires
        forall|i: int| 0 <= i < a.len() ==> #[trigger] a[i] != 0x25,
    ensures
        percent_decoded(a + b) == after(a, percent_decoded(b)),
    decreases a.len(),
{
    if a.len() > 0 {
        assert((a + b).skip(1) =~= a.skip(1) + b);
        assert((a + b)[0] == a[0] && a[0] != 0x25);
        assert forall|i: int| 0 <= i < a.skip(1).len() implies #[trigger] a.skip(1)[i] != 0x25 by {
            assert(a.skip(1)[i] == a[i + 1]);
        }
        decode_joined(a.skip(1), b);
        if let Ok(t) = percent_decoded(b) {
            assert(seq![a[0]] + (a.skip(1) + t) =~= a + t);
        }
    } else {
        assert(a + b =~= b);
        if let Ok(t) = percent_decoded(b) {
            assert(a + t =~= t);
        }
    }
}

/// Plain bytes and escapes are decoded one after the other: bytes other than `%` stand for
/// themselves, an escape for the byte of its two digits, and what follows is decoded in
/// the same way.
pub proof fn escapes_are_decoded_in_place(plain: Seq<u8>, hi: u8, lo: u8, rest: Seq<u8>)
    requires
        forall|i: int| 0 <= i < plain.len() ==> #[trigger] plain[i] != 0x25,
    ensures
        percent_decoded(plain) == Ok::<Seq<u8>, PercentFault>(plain),
        hexcode::digit_value(hi) matches Some(h) ==> (hexcode::digit_value(lo) matches Some(l) ==> (
        percent_decoded(rest) matches Ok(t) ==> percent_decoded(plain + seq![0x25u8, hi, lo] + rest)
            == Ok::<Seq<u8>, PercentFault>(plain + seq![(16 * h + l) as u8] + t))),
        percent_decoded(rest) is Err ==> percent_decoded(plain + seq![0x25u8, hi, lo] + rest) is Err,
{
    let escape = seq![0x25u8, hi, lo] + rest;
    assert(plain + seq![0x25u8, hi, lo] + rest =~= plain + escape);
    decode_joined(plain, escape);
    assert(escape.skip(3) =~= rest);
    assert(escape[0] == 0x25 && escape[1] == hi && escape[2] == lo);
    decode_plain(plain);
    if let Ok(t) = percent_decoded(rest) {
        if hexcode::digit_value(hi) is Some && hexcode::digit_value(lo) is Some {
            let b = hexcode::pair_value(hi, lo);
            assert(plain + (seq![b] + t) =~= plain + seq![b] + t);
        }
    }
}

/// An escape that is cut off, or that holds anything but hexadecimal digits, is refused
/// wherever it stands, and the fault is the leftmost one.
pub proof fn malformed_escapes_are_refused(plain: Seq<u8>, rest: Seq<u8>)
    requires
        forall|i: int| 0 <= i < plain.len() ==> #[trigger] plain[i] != 0x25,
    ensures
        rest.len() < 2 ==> percent_decoded(plain + seq![0x25u8] + rest) == Err::<
            Seq<u8>,
            PercentFault,
        >(PercentFault::Truncated),
        rest.len() >= 2 && hexcode::digit_value(rest[0]) is None ==> percent_decoded(
            plain + seq![0x25u8] + rest,
        ) == Err::<Seq<u8>, PercentFault>(PercentFault::BadDigit(rest[0])),
        rest.len() >= 2 && hexcode::digit_value(rest[0]) is Some && hexcode::digit_value(rest[1])
            is None ==> percent_decoded(plain + seq![0x25u8] + rest) == Err::<
            Seq<u8>,
            PercentFault,
        >(PercentFault::BadDigit(rest[1])),
{
    let escape = seq![0x25u8] + rest;
    assert(plain + seq![0x25u8] + rest =~= plain + escape);
    decode_joined(plain, escape);
    assert(escape[0] == 0x25);
    if rest.len() >= 2 {
        assert(escape[1] == rest[0] && escape[2] == rest[1]);
    }
}

/// The name of an attribute is what stands before the first `=`, and its value all that
/// stands behind it, further `=` among it.
proof fn attribute_is_split(name: Seq<char>, value: Seq<char>)
    requires
        !name.contains('='),
    ensures
        ({
            let part = name + seq!['='] + value;
            let n = text::position(part, '=');
            n == name.len() && n < part.len() && part.take(n) == name && part.skip(n + 1) == value
        }),
{
    let part = name + seq!['='] + value;
    assert forall|k: int| 0 <= k < name.len() implies part[k] != '=' by {
        assert(name.contains(name[k]));
    }
    text::position_is_first(part, '=', name.len() as int);
    assert(part.take(name.len() as int) =~= name);
    assert(part.skip((name.len() + 1) as int) =~= value);
}

/// The attributes `token` and `object` set the label of the token and of the key, `id` the
/// identifier of the key, and `type=private` nothing; each leaves the others as they are,
/// and is refused exactly if its value is.
pub proof fn attributes_set_their_own_part(uri: UriView, value: Seq<char>)
    ensures
        ({
            let r = with_attribute(uri, "token"@ + seq!['='] + value);
            match text_value(value) {
                Ok(t) => r matches Ok(u) && u.token_label == Some(t) && u.object_label
                    == uri.object_label && u.key_id == uri.key_id,
                Err(_) => r is Err,
            }
        }),
        ({
            let r = with_attribute(uri, "object"@ + seq!['='] + value);
            match text_value(value) {
                Ok(t) => r matches Ok(u) && u.object_label == Some(t) && u.token_label
                    == uri.token_label && u.key_id == uri.key_id,
                Err(_) => r is Err,
            }
        }),
        ({
            let r = with_attribute(uri, "id"@ + seq!['='] + value);
            match id_value(value) {
                Ok(b) => r matches Ok(u) && u.key_id == Some(b) && u.token_label == uri.token_label
                    && u.object_label == uri.object_label,
                Err(_) => r is Err,
            }
        }),
        with_attribute(uri, "type"@ + seq!['='] + value) is Ok <==> value == "private"@,
        with_attribute(uri, "type"@ + seq!['='] + value) matches Ok(u) ==> u == uri,
{
    reveal_strlit("token");
    reveal_strlit("object");
    reveal_strlit("id");
    reveal_strlit("type");
    assert forall|i: int| 0 <= i < 5 implies "token"@[i] != '=' by {}
    assert forall|i: int| 0 <= i < 6 implies "object"@[i] != '=' by {}
    assert forall|i: int| 0 <= i < 2 implies "id"@[i] != '=' by {}
    assert forall|i: int| 0 <= i < 4 implies "type"@[i] != '=' by {}
    attribute_is_split("token"@, value);
    attribute_is_split("object"@, value);
    attribute_is_split("id"@, value);
    attribute_is_split("type"@, value);
    assert("token"@.len() == 5 && "object"@.len() == 6 && "id"@.len() == 2 && "type"@.len() == 4);
}

/// A part without a `=` states nothing.
pub proof fn parts_without_a_value_state_nothing(uri: UriView, part: Seq<char>)
    requires
        !part.contains('='),
    ensures
        with_attribute(uri, part) == Ok::<UriView, Seq<char>>(uri),
{
    text::position_bounds(part, '=');
}

/// The attributes are read one after the other, from left to right: what a part states is
/// set, and then what the parts behind the semicolon state.
pub proof fn attributes_are_read_in_order(uri: UriView, part: Seq<char>, rest: Seq<char>)
    requires
        !part.contains(';'),
    ensures
        with_attributes(uri, part) == with_attribute(uri, part),
        with_attribute(uri, part) matches Ok(next) ==> with_attributes(
            uri,
            part + seq![';'] + rest,
        ) == with_attributes(next, rest),
        with_attribute(uri, part) is Err ==> with_attributes(uri, part + seq![';'] + rest) is Err,
{
    let s = part + seq![';'] + rest;
    assert forall|k: int| 0 <= k < part.len() implies s[k] != ';' && part[k] != ';' by {
        assert(part.contains(part[k]));
    }
    text::position_is_first(s, ';', part.len() as int);
    text::position_is_first(part, ';', part.len() as int);
    assert(s.take(part.len() as int) =~= part);
    assert(s.skip((part.len() + 1) as int) =~= rest);
    assert(part.take(part.len() as int) =~= part);
}

/// A URI starts with its scheme, and states what its attributes state; nothing else is a
/// URI.
pub proof fn uris_start_with_the_scheme(s: Seq<char>)
    ensures
        uri_of("pkcs11:"@ + s) == with_attributes(
            (UriView { token_label: None, object_label: None, key_id: None }),
            s,
        ),
        !"pkcs11:"@.is_prefix_of(s) ==> uri_of(s) is Err,
{
    reveal_strlit("pkcs11:");
    let whole = "pkcs11:"@ + s;
    assert("pkcs11:"@ =~= whole.take(7));
    assert(whole.skip(7) =~= s);
}

/// A URI with a token, an object and an identifier selects by all three.
pub proof fn uris_select_by_all_attributes(token: Seq<char>, object: Seq<char>, id: Seq<char>)
    requires
        !token.contains(';'),
        !object.contains(';'),
        !id.contains(';'),
        text_value(token) is Ok,
        text_value(object) is Ok,
        id_value(id) is Ok,
    ensures
        ({
            let s = "token"@ + seq!['='] + token + seq![';'] + ("object"@ + seq!['='] + object + seq![
                ';',
            ] + ("id"@ + seq!['='] + id));
            uri_of("pkcs11:"@ + s) matches Ok(u) && u.token_label == Some(text_value(token)->Ok_0)
                && u.object_label == Some(text_value(object)->Ok_0) && u.key_id == Some(
                id_value(id)->Ok_0,
            )
        }),
{
    let a = "token"@ + seq!['='] + token;
    let b = "object"@ + seq!['='] + object;
    let c = "id"@ + seq!['='] + id;
    reveal_strlit("token");
    reveal_strlit("object");
    reveal_strlit("id");
    assert forall|i: int| 0 <= i < a.len() implies a[i] != ';' by {
        if i >= 6 {
            assert(a[i] == token[i - 6]);
            assert(token.contains(token[i - 6]));
        }
    }
    assert forall|i: int| 0 <= i < b.len() implies b[i] != ';' by {
        if i >= 7 {
            assert(b[i] == object[i - 7]);
            assert(object.contains(object[i - 7]));
        }
    }
    assert forall|i: int| 0 <= i < c.len() implies c[i] != ';' by {
        if i >= 3 {
            assert(c[i] == id[i - 3]);
            assert(id.contains(id[i - 3]));
        }
    }
    let rest = b + seq![';'] + c;
    uris_start_with_the_scheme(a + seq![';'] + rest);
    let u0 = empty_uri();
    attributes_set_their_own_part(u0, token);
    attributes_are_read_in_order(u0, a, rest);
    let u1 = with_attribute(u0, a)->Ok_0;
    attributes_set_their_own_part(u1, object);
    attributes_are_read_in_order(u1, b, c);
    let u2 = with_attribute(u1, b)->Ok_0;
    attributes_set_their_own_part(u2, id);
    attributes_are_read_in_order(u2, c, c);
}

} // verus!
