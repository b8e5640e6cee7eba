//! What the arguments of the command line stand for.

use vstd::prelude::*;

use crate::cert;
use crate::cert::{Cert, CertKey};
use crate::error;
use crate::error::Error;
use crate::hexcode;
use crate::openpgp;
use crate::openpgp::Fingerprint;
use crate::session;
use crate::session::{KeySelector, LoginMode};
use crate::text;
use crate::uri;
use crate::uri::Pkcs11Uri;

verus! {

// ---------------------------------------------------------------------------
// Selecting a key
// ---------------------------------------------------------------------------

/// The options that select a key.
#[derive(Debug)]
pub struct KeySelectionArgs {
    pub key_uri: Option<String>,
    pub key_label: Option<String>,
    pub key_id: Option<String>,
    pub auto: bool,
}

/// What is said of an identifier that is not hexadecimal.
pub open spec fn bad_id(flag: Seq<char>, id: Seq<char>, fault: hexcode::HexFault) -> error::ErrorView {
    error::ErrorView::Context {
        message: "invalid hex in "@ + flag + ": "@ + id,
        cause: hexcode::fault_text(fault),
    }
}

/// The selector that options state, if they state one: a URI goes before a label, that
/// before an identifier, and that before the choice of the only key.  `flag` is the
/// option for the identifier.
pub open spec fn selection(args: KeySelectionArgs, flag: Seq<char>) -> Result<
    Option<session::SelectorView>,
    error::ErrorView,
> {
    match (args.key_uri, args.key_label, args.key_id) {
        (Some(u), _, _) => match uri::uri_of(u@) {
            Ok(view) => Ok(Some(session::SelectorView::Uri(view))),
            Err(message) => Err(error::ErrorView::Other(message)),
        },
        (None, Some(l), _) => Ok(Some(session::SelectorView::Label(l@))),
        (None, None, Some(i)) => match hexcode::hex_decoded(text::utf8(i@)) {
            Ok(id) => Ok(Some(session::SelectorView::Id(id))),
            Err(fault) => Err(bad_id(flag, i@, fault)),
        },
        (None, None, None) => if args.auto {
            Ok(Some(session::SelectorView::Auto))
        } else {
            Ok(None)
        },
    }
}

impl KeySelectionArgs {
    /// The selector that the options state, if they state one.
    pub fn select(&self, flag: &str) -> (r: Result<Option<KeySelector>, Error>)
        ensures
            match selection(*self, flag@) {
                Ok(Some(view)) => r matches Ok(Some(s)) && s@ == view,
                Ok(None) => r matches Ok(None),
                Err(e) => error::fails_with(r, e),
            },
    {
        if let Some(u) = &self.key_uri {
            return match Pkcs11Uri::parse_text(u.as_str()) {
                Ok(parsed) => Ok(Some(KeySelector::Uri(parsed))),
                Err(e) => Err(e),
            };
        }
        if let Some(l) = &self.key_label {
            return Ok(Some(KeySelector::Label(l.clone())));
        }
        if let Some(i) = &self.key_id {
            return match hexcode::decode(i.as_str()) {
                Ok(id) => Ok(Some(KeySelector::Id(id))),
                Err(fault) => {
                    let mut message = text::join3("invalid hex in ", flag, ": ");
                    message.append(i.as_str());
                    Err(Error::Context { message, cause: fault.text() })
                },
            };
        }
        if self.auto {
            return Ok(Some(KeySelector::Auto));
        }
        Ok(None)
    }

    /// The selector that the options state, one of which must be given.
    pub fn resolve(&self) -> (r: Result<KeySelector, Error>)
        ensures
            match selection(*self, "--key-id"@) {
                Ok(Some(view)) => r matches Ok(s) && s@ == view,
                Ok(None) => error::fails_with(r, no_selector()),
                Err(e) => error::fails_with(r, e),
            },
    {
        match self.select("--key-id") {
            Ok(Some(s)) => Ok(s),
            Ok(None) => Err(
                Error::Other(
                    "specify one of --key-uri, --key-label, --key-id, or --auto".to_owned(),
                ),
            ),
            Err(e) => Err(e),
        }
    }
}

/// What is said where no option selects a key.
pub open spec fn no_selector() -> error::ErrorView {
    error::ErrorView::Other("specify one of --key-uri, --key-label, --key-id, or --auto"@)
}

/// The selector for the subkey, if the options state one.
pub fn resolve_subkey_selector(args: &KeySelectionArgs) -> (r: Result<Option<KeySelector>, Error>)
    ensures
        match selection(*args, "--subkey-id"@) {
            Ok(Some(view)) => r matches Ok(Some(s)) && s@ == view,
            Ok(None) => r matches Ok(None),
            Err(e) => error::fails_with(r, e),
        },
{
    args.select("--subkey-id")
}

// ---------------------------------------------------------------------------
// Authentication
// ---------------------------------------------------------------------------

/// A text without the newline at its end: one CR, one LF, or one CR and LF.
pub open spec fn without_newline(s: Seq<char>) -> Seq<char> {
    if s.len() > 1 && s.last() == '\n' && s[s.len() - 2] == '\r' {
        s.take(s.len() - 2)
    } else if s.len() > 0 && (s.last() == '\n' || s.last() == '\r') {
        s.drop_last()
    } else {
        s
    }
}

/// A file with a passphrase: its path in messages, and what reading it gave.
#[derive(Debug)]
pub struct PinFile {
    pub path: String,
    pub contents: Result<String, String>,
}

/// The passphrase that a file holds: its contents without the newline at the end, and
/// not empty.
pub open spec fn pin_in(file: PinFile) -> Result<Seq<char>, error::ErrorView> {
    match file.contents {
        Err(cause) => Err(
            error::ErrorView::Context {
                message: "reading pin file "@ + file.path@,
                cause: cause@,
            },
        ),
        Ok(raw) => if without_newline(raw@).len() == 0 {
            Err(error::ErrorView::Other("pin file "@ + file.path@ + " is empty"@))
        } else {
            Ok(without_newline(raw@))
        },
    }
}

/// The passphrase that a file holds.  Only the newline at the end is removed, so that
/// white space stays part of the passphrase.
pub fn read_pin_file(file: PinFile) -> (r: Result<String, Error>)
    ensures
        match pin_in(file) {
            Ok(pin) => r matches Ok(p) && p@ == pin,
            Err(e) => error::fails_with(r, e),
        },
{
    let raw = match file.contents {
        Ok(raw) => raw,
        Err(cause) => {
            return Err(
                Error::Context {
                    message: text::join2("reading pin file ", file.path.as_str()),
                    cause,
                },
            );
        },
    };
    let chars = text::chars_of(raw.as_str());
    let n: usize = chars.len();
    let end: usize = if n > 1 && chars[n - 1] == '\n' && chars[n - 2] == '\r' {
        n - 2
    } else if n > 0 && (chars[n - 1] == '\n' || chars[n - 1] == '\r') {
        n - 1
    } else {
        n
    };
    let pin = text::string_of(&chars, 0, end);
    assert(pin@ =~= without_newline(raw@));
    if end == 0 {
        return Err(
            Error::Other(text::join3("pin file ", file.path.as_str(), " is empty")),
        );
    }
    Ok(pin)
}

/// How to log in: with the passphrase of the file where one is given, else with that of
/// the environment where there is one, and else not at all.
pub open spec fn login_of(file: Option<PinFile>, environment: Option<String>) -> Result<
    Option<Seq<char>>,
    error::ErrorView,
> {
    match file {
        Some(f) => match pin_in(f) {
            Ok(pin) => Ok(Some(pin)),
            Err(e) => Err(e),
        },
        None => match environment {
            Some(pin) => Ok(Some(pin@)),
            None => Ok(None),
        },
    }
}

/// How to log in, from `--pin-file` or `--subkey-pin-file` and the variable of the
/// environment that stands in for it.
pub fn login_mode(file: Option<PinFile>, environment: Option<String>) -> (r: Result<
    LoginMode,
    Error,
>)
    ensures
        match login_of(file, environment) {
            Ok(pin) => r matches Ok(m) && session::login_pin(m) == pin,
            Err(e) => error::fails_with(r, e),
        },
{
    match file {
        Some(f) => match read_pin_file(f) {
            Ok(pin) => Ok(LoginMode::Pin(pin)),
            Err(e) => Err(e),
        },
        None => match environment {
            Some(pin) => Ok(LoginMode::Pin(pin)),
            None => Ok(LoginMode::NoLogin),
        },
    }
}

// ---------------------------------------------------------------------------
// The module
// ---------------------------------------------------------------------------

/// What is said where no PKCS#11 module is given.
pub open spec fn no_module() -> error::ErrorView {
    error::ErrorView::Other(
        "PKCS#11 module not specified.\nUse -m/--module <path>, or set PKCS11_MODULE_PATH or SQ_PKCS11_MODULE.\nExample: -m /opt/nfast/toolkits/pkcs11/libcknfast.so"@,
    )
}

/// The path of the PKCS#11 module: that of the command line, in which the standard
/// variable of the environment has its place, and else that of `SQ_PKCS11_MODULE`.
pub fn resolve_module<T>(from_cli: Option<T>, fallback: Option<T>) -> (r: Result<T, Error>)
    ensures
        match (from_cli, fallback) {
            (Some(p), _) => r == Ok::<T, Error>(p),
            (None, Some(p)) => r == Ok::<T, Error>(p),
            (None, None) => error::fails_with(r, no_module()),
        },
{
    match (from_cli, fallback) {
        (Some(p), _) => Ok(p),
        (None, Some(p)) => Ok(p),
        (None, None) => Err(
            Error::Other(
                "PKCS#11 module not specified.\nUse -m/--module <path>, or set PKCS11_MODULE_PATH or SQ_PKCS11_MODULE.\nExample: -m /opt/nfast/toolkits/pkcs11/libcknfast.so".to_owned(),
            ),
        ),
    }
}

// ---------------------------------------------------------------------------
// Fingerprints
// ---------------------------------------------------------------------------

/// A text without the one `0x` or `0X` that it may start with.
pub open spec fn without_prefix(s: Seq<char>) -> Seq<char> {
    if s.len() >= 2 && s[0] == '0' && (s[1] == 'x' || s[1] == 'X') {
        s.skip(2)
    } else {
        s
    }
}

/// The bytes that pairs of hexadecimal digits stand for.
pub open spec fn paired(digits: Seq<char>) -> Seq<u8> {
    Seq::new(
        digits.len() / 2,
        |i: int| (16 * hexcode::nibble(digits[2 * i])->0 + hexcode::nibble(digits[2 * i + 1])->0) as u8,
    )
}

/// What `Fingerprint::from_hex` makes of a text without white space.
pub open spec fn fingerprint_of(s: Seq<char>) -> Result<Seq<u8>, Seq<char>> {
    let digits = without_prefix(s);
    if s.len() % 2 != 0 {
        Err("Invalid argument: Odd number of nibbles"@)
    } else if exists|i: int| 0 <= i < digits.len() && hexcode::nibble(#[trigger] digits[i]) is None {
        Err("Invalid argument: Invalid characters"@)
    } else {
        Ok(paired(digits))
    }
}

/// `Fingerprint::from_hex` reads pairs of hexadecimal digits of either case, behind one
/// `0x` or not.  White space is left out of consideration here, so that the number of
/// the characters is what it tests first.
#[verifier::external_body]
pub(crate) fn fingerprint_from_hex(s: &str) -> (r: Result<Vec<u8>, String>)
    requires
        forall|i: int| 0 <= i < s@.len() ==> !text::white_space(#[trigger] s@[i]),
    ensures
        match r {
            Ok(f) => fingerprint_of(s@) == Ok::<Seq<u8>, Seq<char>>(f@),
            Err(e) => fingerprint_of(s@) == Err::<Seq<u8>, Seq<char>>(e@),
        },
{
    match sequoia_openpgp::Fingerprint::from_hex(s) {
        Ok(f) => Ok(f.as_bytes().to_vec()),
        Err(e) => Err(e.to_string()),
    }
}

/// A text without its white space.
pub open spec fn dense(s: Seq<char>) -> Seq<char>
    decreases s.len(),
{
    if s.len() == 0 {
        Seq::empty()
    } else if text::white_space(s.last()) {
        dense(s.drop_last())
    } else {
        dense(s.drop_last()).push(s.last())
    }
}

/// What is left of the text of a fingerprint: no white space, and without the one `0x`
/// or `0X` that may stand before it.
pub open spec fn cleaned(s: Seq<char>) -> Seq<char> {
    without_prefix(dense(s))
}

/// What is said of a text that is too short or too long for a fingerprint.
pub open spec fn not_full(needle: Seq<char>, n: nat) -> error::ErrorView {
    error::ErrorView::Other(
        text::debug_text(needle) + " is not a full OpenPGP fingerprint (got "@ + text::decimal_text(
            n,
        )
            + " hex chars after stripping whitespace and 0x prefix; need exactly 40); short 16-char key IDs are not accepted because they are not collision-resistant"@,
    )
}

/// What is said of forty bytes that are not all hexadecimal digits.
pub open spec fn not_hex(needle: Seq<char>) -> error::ErrorView {
    error::ErrorView::Context {
        message: "parsing "@ + text::debug_text(needle) + " as a 40-hex-char fingerprint"@,
        cause: if cleaned(needle).len() % 2 != 0 {
            "Invalid argument: Odd number of nibbles"@
        } else {
            "Invalid argument: Invalid characters"@
        },
    }
}

/// The fingerprint that a text on the command line denotes: forty hexadecimal digits.
/// The short form of sixteen digits is refused, since two keys can share it.
pub open spec fn full_fingerprint(needle: Seq<char>) -> Result<Seq<u8>, error::ErrorView> {
    let text = cleaned(needle);
    if text::utf8(text).len() != 40 {
        Err(not_full(needle, text::utf8(text).len()))
    } else if exists|i: int| 0 <= i < text.len() && hexcode::nibble(#[trigger] text[i]) is None {
        Err(not_hex(needle))
    } else {
        Ok(paired(text))
    }
}

/// Hexadecimal digits take one byte each.
proof fn digits_are_ascii(s: Seq<char>)
    requires
        forall|i: int| 0 <= i < s.len() ==> hexcode::nibble(#[trigger] s[i]) is Some,
    ensures
        text::utf8(s).len() == s.len(),
{
    assert(vstd::utf8::is_ascii_chars(s));
    vstd::utf8::is_ascii_chars_encode_utf8(s);
}

fn drop_white_space(s: &str) -> (out: Vec<char>)
    ensures
        out@ == dense(s@),
        forall|i: int| 0 <= i < out@.len() ==> !text::white_space(#[trigger] out@[i]),
{
    let chars = text::chars_of(s);
    let mut out: Vec<char> = Vec::new();
    let mut i: usize = 0;
    assert(chars@.take(0) =~= Seq::empty());
    while i < chars.len()
        invariant
            i <= chars.len(),
            out@ == dense(chars@.take(i as int)),
            forall|k: int| 0 <= k < out@.len() ==> !text::white_space(#[trigger] out@[k]),
        decreases chars.len() - i,
    {
        let c: char = chars[i];
        assert(chars@.take(i + 1).drop_last() =~= chars@.take(i as int));
        if !c.is_whitespace() {
            out.push(c);
        }
        i += 1;
    }
    assert(chars@.take(i as int) =~= chars@);
    out
}

/// A prefix takes two bytes.
proof fn utf8_of_prefixed(s: Seq<char>)
    requires
        without_prefix(s) != s,
        forall|i: int| 0 <= i < without_prefix(s).len() ==> hexcode::nibble(#[trigger] without_prefix(s)[i]) is Some,
    ensures
        text::utf8(s).len() == s.len(),
{
    assert forall|i: int| 0 <= i < s.len() implies '\0' <= #[trigger] s[i] <= '\u{7f}' by {
        if i >= 2 {
            assert(s[i] == without_prefix(s)[i - 2]);
        }
    }
    assert(vstd::utf8::is_ascii_chars(s));
    vstd::utf8::is_ascii_chars_encode_utf8(s);
}

/// Reads the fingerprint of a subkey.
pub fn parse_full_fingerprint(needle: &str) -> (r: Result<Fingerprint, Error>)
    ensures
        match full_fingerprint(needle@) {
            Ok(f) => r matches Ok(x) && x@ == f,
            Err(e) => error::fails_with(r, e),
        },
{
    let chars = drop_white_space(needle);
    let from: usize = if chars.len() >= 2 && chars[0] == '0' && (chars[1] == 'x' || chars[1]
        == 'X') {
        2
    } else {
        0
    };
    let text = text::string_of(&chars, from, chars.len());
    assert(text@ =~= without_prefix(chars@));
    let n: usize = text.as_str().as_bytes().len();
    if n != 40 {
        let mut message = text::join3(
            text::debug_str(needle).as_str(),
            " is not a full OpenPGP fingerprint (got ",
            text::decimal(n as u64).as_str(),
        );
        message.append(
            " hex chars after stripping whitespace and 0x prefix; need exactly 40); short 16-char key IDs are not accepted because they are not collision-resistant",
        );
        return Err(Error::Other(message));
    }
    let refused = match fingerprint_from_hex(text.as_str()) {
        Ok(bytes) => {
            // Forty characters of which two were taken for a second prefix.
            if bytes.len() == 20 {
                proof {
                    digits_are_ascii(without_prefix(text@));
                    if without_prefix(text@) != text@ {
                        utf8_of_prefixed(text@);
                    }
                }
                return Ok(Fingerprint { bytes });
            }
            proof {
                if without_prefix(text@) == text@ {
                    digits_are_ascii(text@);
                }
                assert(hexcode::nibble(text@[1]) is None);
            }
            "Invalid argument: Invalid characters".to_owned()
        },
        Err(cause) => {
            proof {
                let digits = without_prefix(text@);
                if text@.len() % 2 == 0 {
                    let i = choose|i: int|
                        0 <= i < digits.len() && hexcode::nibble(#[trigger] digits[i]) is None;
                    assert(digits[i] == text@[i + text@.len() - digits.len()]);
                } else if forall|i: int| 0 <= i < text@.len() ==> hexcode::nibble(#[trigger] text@[i]) is Some {
                    digits_are_ascii(text@);
                }
            }
            cause
        },
    };
    Err(
        Error::Context {
            message: text::join3(
                "parsing ",
                text::debug_str(needle).as_str(),
                " as a 40-hex-char fingerprint",
            ),
            cause: refused,
        },
    )
}

/// The index of the first key with the fingerprint, or the number of keys.
pub open spec fn first_with(keys: Seq<cert::CertKeyView>, f: Seq<u8>) -> int
    decreases keys.len(),
{
    if keys.len() == 0 || keys[0].fingerprint == f {
        0
    } else {
        1 + first_with(keys.drop_first(), f)
    }
}

proof fn first_with_is(keys: Seq<cert::CertKeyView>, f: Seq<u8>, i: int)
    requires
        0 <= i <= keys.len(),
        forall|k: int| 0 <= k < i ==> (#[trigger] keys[k]).fingerprint != f,
        i < keys.len() ==> keys[i].fingerprint == f,
    ensures
        first_with(keys, f) == i,
    decreases keys.len(),
{
    if keys.len() > 0 && i > 0 {
        assert(keys[0].fingerprint != f);
        assert forall|k: int| 0 <= k < i - 1 implies (#[trigger] keys.drop_first()[k]).fingerprint
            != f by {
            assert(keys.drop_first()[k] == keys[k + 1]);
        }
        first_with_is(keys.drop_first(), f, i - 1);
    }
}

/// What is said where no subkey has the fingerprint.
pub open spec fn no_such_subkey(f: Seq<u8>) -> error::ErrorView {
    error::ErrorView::Other(
        "no subkey in the input cert matches fingerprint "@ + openpgp::upper_hex(f),
    )
}

/// The subkey of `c` with the fingerprint.
pub fn locate_subkey_in_cert(c: &Cert, fingerprint: &Fingerprint) -> (r: Result<CertKey, Error>)
    ensures
        ({
            let keys = cert::key_views(c.subkeys@);
            let i = first_with(keys, fingerprint@);
            if i < keys.len() {
                r matches Ok(k) && k@ == keys[i]
            } else {
                error::fails_with(r, no_such_subkey(fingerprint@))
            }
        }),
{
    let ghost keys = cert::key_views(c.subkeys@);
    let mut i: usize = 0;
    while i < c.subkeys.len()
        invariant
            i <= c.subkeys.len(),
            keys == cert::key_views(c.subkeys@),
            forall|k: int| 0 <= k < i ==> (#[trigger] keys[k]).fingerprint != fingerprint@,
        decreases c.subkeys.len() - i,
    {
        if c.subkeys[i].fingerprint.same(fingerprint) {
            proof {
                assert(keys[i as int].fingerprint == fingerprint@);
                first_with_is(keys, fingerprint@, i as int);
            }
            return Ok(c.subkeys[i].clone());
        }
        i += 1;
    }
    proof {
        first_with_is(keys, fingerprint@, i as int);
    }
    Err(
        Error::Other(
            text::join2(
                "no subkey in the input cert matches fingerprint ",
                fingerprint.text().as_str(),
            ),
        ),
    )
}

// ---------------------------------------------------------------------------
// Laws
// ---------------------------------------------------------------------------

/// The subkey that is located is one of the certificate's, and has the fingerprint that
/// was asked for; it is located exactly if there is one.
pub proof fn located_subkey_is_right(keys: Seq<cert::CertKeyView>, f: Seq<u8>)
    ensures
        ({
            let i = first_with(keys, f);
            &&& 0 <= i <= keys.len()
            &&& i < keys.len() ==> keys[i].fingerprint == f
            &&& forall|k: int| 0 <= k < i ==> (#[trigger] keys[k]).fingerprint != f
            &&& i < keys.len() <==> exists|k: int|
                0 <= k < keys.len() && (#[trigger] keys[k]).fingerprint == f
        }),
    decreases keys.len(),
{
    if keys.len() > 0 {
        if keys[0].fingerprint == f {
            assert(keys[0].fingerprint == f);
        } else {
            let rest = keys.drop_first();
            located_subkey_is_right(rest, f);
            assert forall|k: int| 0 <= k < first_with(keys, f) implies (#[trigger] keys[k]).fingerprint
                != f by {
                if k > 0 {
                    assert(rest[k - 1] == keys[k]);
                }
            }
            if first_with(rest, f) < rest.len() {
                assert(keys[first_with(keys, f)].fingerprint == f);
            } else {
                assert forall|k: int| 0 <= k < keys.len() implies (#[trigger] keys[k]).fingerprint
                    != f by {
                    if k > 0 {
                        assert(rest[k - 1] == keys[k]);
                    }
                }
            }
        }
    }
}

/// A fingerprint is read exactly if forty hexadecimal digits are left of the text, in
/// either case, and then has twenty bytes.
pub proof fn fingerprints_are_forty_digits(needle: Seq<char>)
    ensures
        full_fingerprint(needle) is Ok <==> cleaned(needle).len() == 40 && forall|i: int|
            0 <= i < 40 ==> hexcode::nibble(#[trigger] cleaned(needle)[i]) is Some,
        full_fingerprint(needle) matches Ok(f) ==> f.len() == 20,
{
    let text = cleaned(needle);
    if forall|i: int| 0 <= i < text.len() ==> hexcode::nibble(#[trigger] text[i]) is Some {
        digits_are_ascii(text);
    }
}

/// A short key ID, or any other number of digits than forty, is refused as such.
pub proof fn short_ids_are_refused(needle: Seq<char>)
    requires
        cleaned(needle).len() != 40,
        forall|i: int|
            0 <= i < cleaned(needle).len() ==> hexcode::nibble(#[trigger] cleaned(needle)[i]) is Some,
    ensures
        full_fingerprint(needle) == Err::<Seq<u8>, error::ErrorView>(
            not_full(needle, cleaned(needle).len()),
        ),
{
    digits_are_ascii(cleaned(needle));
}

/// The case of the digits makes no difference.
pub proof fn digit_case_is_ignored(a: Seq<char>, b: Seq<char>)
    requires
        a.len() == b.len(),
        forall|i: int| 0 <= i < a.len() ==> hexcode::nibble(#[trigger] a[i]) == hexcode::nibble(b[i]),
    ensures
        paired(a) == paired(b),
{
    assert(paired(a) =~= paired(b));
}

/// The text of a fingerprint consists of two hexadecimal digits for each byte.
proof fn upper_hex_digits(f: Seq<u8>)
    ensures
        openpgp::upper_hex(f).len() == 2 * f.len(),
        forall|i: int|
            0 <= i < openpgp::upper_hex(f).len() ==> {
                let c = #[trigger] openpgp::upper_hex(f)[i];
                &&& hexcode::nibble(c) == Some(
                    (if i % 2 == 0 {
                        f[i / 2] / 16
                    } else {
                        f[i / 2] % 16
                    }) as u8,
                )
                &&& '\0' <= c <= '\u{7f}'
                &&& !text::white_space(c)
                &&& c != 'x' && c != 'X'
            },
    decreases f.len(),
{
    if f.len() > 0 {
        let head = f.drop_last();
        upper_hex_digits(head);
        let s = openpgp::upper_hex(f);
        let t = openpgp::upper_hex(head);
        assert forall|i: int| 0 <= i < s.len() implies {
            let c = #[trigger] s[i];
            &&& hexcode::nibble(c) == Some(
                (if i % 2 == 0 {
                    f[i / 2] / 16
                } else {
                    f[i / 2] % 16
                }) as u8,
            )
            &&& '\0' <= c <= '\u{7f}'
            &&& !text::white_space(c)
            &&& c != 'x' && c != 'X'
        } by {
            if i < t.len() {
                assert(s[i] == t[i]);
                assert(head[i / 2] == f[i / 2]);
            } else {
                assert(i / 2 == f.len() - 1);
            }
        }
    }
}

proof fn dense_is_itself(s: Seq<char>)
    requires
        forall|i: int| 0 <= i < s.len() ==> !text::white_space(#[trigger] s[i]),
    ensures
        dense(s) == s,
    decreases s.len(),
{
    if s.len() > 0 {
        assert(s.last() == s[s.len() - 1]);
        assert forall|i: int| 0 <= i < s.drop_last().len() implies !text::white_space(
            #[trigger] s.drop_last()[i],
        ) by {
            assert(s.drop_last()[i] == s[i]);
        }
        dense_is_itself(s.drop_last());
        assert(s.drop_last().push(s.last()) =~= s);
    } else {
        assert(s =~= Seq::empty());
    }
}

/// The text of a fingerprint, as messages show it, is read back as that fingerprint.
pub proof fn fingerprint_round_trip(f: Seq<u8>)
    requires
        f.len() == 20,
    ensures
        full_fingerprint(openpgp::upper_hex(f)) == Ok::<Seq<u8>, error::ErrorView>(f),
{
    let s = openpgp::upper_hex(f);
    upper_hex_digits(f);
    dense_is_itself(s);
    assert(s[1] != 'x' && s[1] != 'X');
    assert(cleaned(s) == s);
    assert(vstd::utf8::is_ascii_chars(s));
    vstd::utf8::is_ascii_chars_encode_utf8(s);
    assert forall|i: int| 0 <= i < 20 implies paired(s)[i] == f[i] by {
        assert((2 * i) / 2 == i && (2 * i) % 2 == 0);
        assert((2 * i + 1) / 2 == i && (2 * i + 1) % 2 == 1);
        assert(hexcode::nibble(s[2 * i]) == Some((f[i] / 16) as u8));
        assert(hexcode::nibble(s[2 * i + 1]) == Some((f[i] % 16) as u8));
        assert(16 * (f[i] / 16) + f[i] % 16 == f[i]);
    }
    assert(paired(s) =~= f);
}

/// A selector is what one of the options states: the URI where there is one, else the
/// label, else the identifier, else the only key where that is asked for; otherwise there
/// is none.
pub proof fn options_select_in_order(args: KeySelectionArgs, flag: Seq<char>)
    ensures
        args.key_uri matches Some(u) ==> (selection(args, flag) is Ok <==> uri::uri_of(u@) is Ok),
        args.key_uri matches Some(u) ==> (uri::uri_of(u@) matches Ok(view) ==> selection(args, flag)
            == Ok::<Option<session::SelectorView>, error::ErrorView>(
            Some(session::SelectorView::Uri(view)),
        )),
        args.key_uri is None ==> (args.key_label matches Some(l) ==> selection(args, flag) == Ok::<
            Option<session::SelectorView>,
            error::ErrorView,
        >(Some(session::SelectorView::Label(l@)))),
        args.key_uri is None && args.key_label is None ==> (args.key_id matches Some(i) ==> (
        selection(args, flag) matches Ok(s) ==> s matches Some(v) && v is Id)),
        args.key_uri is None && args.key_label is None && args.key_id is None ==> selection(
            args,
            flag,
        ) == Ok::<Option<session::SelectorView>, error::ErrorView>(
            if args.auto {
                Some(session::SelectorView::Auto)
            } else {
                None
            },
        ),
{
}

/// An identifier in hexadecimal notation, in either case, selects the key with exactly
/// those bytes.
pub proof fn identifiers_select_their_bytes(args: KeySelectionArgs, flag: Seq<char>, id: Seq<u8>)
    requires
        args.key_uri is None,
        args.key_label is None,
        args.key_id matches Some(i) && hexcode::notates(i@, id),
    ensures
        selection(args, flag) == Ok::<Option<session::SelectorView>, error::ErrorView>(
            Some(session::SelectorView::Id(id)),
        ),
{
    hexcode::notation_round_trip(args.key_id->0@, id);
}

/// One newline is taken off the end of a text, in each of its three forms, and nothing
/// else: what stands before it, further newlines among it, stays.
pub proof fn one_newline_is_dropped(s: Seq<char>)
    ensures
        without_newline(s + seq!['\r', '\n']) == s,
        without_newline(s + seq!['\r']) == s,
        s.len() == 0 || s.last() != '\r' ==> without_newline(s + seq!['\n']) == s,
        s.len() == 0 || s.last() != '\r' && s.last() != '\n' ==> without_newline(s) == s,
{
    assert(without_newline(s + seq!['\r', '\n']) =~= s);
    assert(without_newline(s + seq!['\r']) =~= s);
    assert(s.len() == 0 || s.last() != '\r' ==> without_newline(s + seq!['\n']) =~= s);
}

/// A passphrase file gives a passphrase exactly if it was read and holds more than a
/// newline; the passphrase is then all of the file but that newline.
pub proof fn passphrases_are_the_contents(file: PinFile)
    ensures
        pin_in(file) is Ok <==> (file.contents matches Ok(raw) && raw@.len() > 0 && raw@ != seq![
            '\n',
        ] && raw@ != seq!['\r'] && raw@ != seq!['\r', '\n']),
        pin_in(file) matches Ok(pin) ==> {
            let raw = file.contents->Ok_0@;
            &&& pin.len() > 0
            &&& pin.is_prefix_of(raw)
            &&& raw.skip(pin.len() as int) == Seq::<char>::empty() || raw.skip(pin.len() as int)
                == seq!['\n'] || raw.skip(pin.len() as int) == seq!['\r'] || raw.skip(
                pin.len() as int,
            ) == seq!['\r', '\n']
        },
{
    if file.contents is Ok {
        let raw = file.contents->Ok_0@;
        let pin = without_newline(raw);
        assert(pin =~= raw.subrange(0, pin.len() as int));
        let tail = raw.skip(pin.len() as int);
        if tail.len() == 0 {
            assert(tail =~= Seq::<char>::empty());
        } else if tail.len() == 1 {
            assert(tail[0] == raw.last());
            assert(tail =~= seq!['\n'] || tail =~= seq!['\r']);
        } else {
            assert(tail[0] == raw[raw.len() - 2] && tail[1] == raw.last());
            assert(tail =~= seq!['\r', '\n']);
        }
        if pin.len() == 0 {
            assert(raw =~= tail);
        }
        let n = seq!['\n'];
        let r = seq!['\r'];
        let rn = seq!['\r', '\n'];
        assert(n.len() == 1 && n.last() == '\n');
        assert(r.len() == 1 && r.last() == '\r');
        assert(rn.len() == 2 && rn.last() == '\n' && rn[0] == '\r');
    }
}

/// The passphrase of the file goes before that of the environment, whatever the latter is;
/// without either there is no login.
pub proof fn files_go_before_the_environment(file: Option<PinFile>, environment: Option<String>)
    ensures
        file matches Some(f) ==> {
            &&& login_of(file, environment) is Ok <==> pin_in(f) is Ok
            &&& pin_in(f) matches Ok(pin) ==> login_of(file, environment) == Ok::<
                Option<Seq<char>>,
                error::ErrorView,
            >(Some(pin))
        },
        file is None ==> (environment matches Some(pin) ==> login_of(file, environment) == Ok::<
            Option<Seq<char>>,
            error::ErrorView,
        >(Some(pin@))),
        file is None && environment is None ==> login_of(file, environment) == Ok::<
            Option<Seq<char>>,
            error::ErrorView,
        >(None),
{
}

/// White space is left out of a fingerprint wherever it stands, and nothing else is.
pub proof fn white_space_is_left_out(s: Seq<char>)
    ensures
        dense(s) == s.filter(|c: char| !text::white_space(c)),
    decreases s.len(),
{
    reveal(Seq::filter);
    if s.len() > 0 {
        white_space_is_left_out(s.drop_last());
    } else {
        assert(dense(s) =~= s.filter(|c: char| !text::white_space(c)));
    }
}

/// One prefix is left out of a fingerprint, and a second one is not.
pub proof fn one_prefix_is_left_out(s: Seq<char>)
    ensures
        without_prefix(seq!['0', 'x'] + s) == s,
        without_prefix(seq!['0', 'X'] + s) == s,
        s.len() < 2 || s[0] != '0' || s[1] != 'x' && s[1] != 'X' ==> without_prefix(s) == s,
{
    assert(without_prefix(seq!['0', 'x'] + s) =~= s);
    assert(without_prefix(seq!['0', 'X'] + s) =~= s);
}

/// The fingerprint that is read is the one that the digits notate.
pub proof fn fingerprints_are_as_notated(needle: Seq<char>, f: Seq<u8>)
    ensures
        full_fingerprint(needle) == Ok::<Seq<u8>, error::ErrorView>(f) <==> f.len() == 20
            && hexcode::notates(without_prefix(dense(needle)), f),
{
    let text = without_prefix(dense(needle));
    fingerprints_are_forty_digits(needle);
    if full_fingerprint(needle) == Ok::<Seq<u8>, error::ErrorView>(f) {
        assert forall|i: int| 0 <= i < text.len() implies hexcode::nibble(#[trigger] text[i])
            == Some(
            (if i % 2 == 0 {
                f[i / 2] / 16
            } else {
                f[i / 2] % 16
            }) as u8,
        ) by {
            let k = i / 2;
            assert(f[k] == paired(text)[k]);
            assert(hexcode::nibble(text[2 * k]) is Some && hexcode::nibble(text[2 * k + 1])
                is Some);
            assert(i == 2 * k || i == 2 * k + 1);
        }
    }
    if f.len() == 20 && hexcode::notates(text, f) {
        assert forall|i: int| 0 <= i < 20 implies paired(text)[i] == f[i] by {
            assert((2 * i) / 2 == i && (2 * i) % 2 == 0);
            assert((2 * i + 1) / 2 == i && (2 * i + 1) % 2 == 1);
            assert(hexcode::nibble(text[2 * i]) == Some((f[i] / 16) as u8));
            assert(hexcode::nibble(text[2 * i + 1]) == Some((f[i] % 16) as u8));
            assert(16 * (f[i] / 16) + f[i] % 16 == f[i]);
        }
        assert(paired(text) =~= f);
    }
}

/// A fingerprint is shown in upper-case hexadecimal digits, two for each of its bytes.
pub proof fn fingerprints_are_shown_whole(f: Seq<u8>)
    ensures
        hexcode::notates(openpgp::upper_hex(f), f),
        forall|i: int|
            0 <= i < openpgp::upper_hex(f).len() ==> {
                let c = #[trigger] openpgp::upper_hex(f)[i];
                '0' <= c <= '9' || 'A' <= c <= 'F'
            },
    decreases f.len(),
{
    upper_hex_digits(f);
    if f.len() > 0 {
        let head = f.drop_last();
        fingerprints_are_shown_whole(head);
        let s = openpgp::upper_hex(f);
        let t = openpgp::upper_hex(head);
        assert forall|i: int| 0 <= i < s.len() implies {
            let c = #[trigger] s[i];
            '0' <= c <= '9' || 'A' <= c <= 'F'
        } by {
            if i < t.len() {
                assert(s[i] == t[i]);
            }
        }
    }
}

} // verus!
