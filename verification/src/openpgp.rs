//! OpenPGP values: algorithms, key material, keys and fingerprints.

use vstd::prelude::*;

use sequoia_openpgp::crypto::mpi;
use sequoia_openpgp::packet::key::{Key4, PrimaryRole, PublicParts};
use sequoia_openpgp::types as pgp;

use crate::bytes;
use crate::error;
use crate::error::Error;
use crate::text;

verus! {

// ---------------------------------------------------------------------------
// Points in time
// ---------------------------------------------------------------------------

/// A point in time, counted from the Unix epoch.
#[derive(Debug, Clone, Copy, PartialEq, Eq, Structural)]
pub struct UnixTime {
    pub secs: u64,
    pub nanos: u32,
}

impl UnixTime {
    /// The Unix epoch itself.
    pub fn epoch() -> (t: UnixTime)
        ensures
            t == (UnixTime { secs: 0, nanos: 0 }),
    {
        UnixTime { secs: 0, nanos: 0 }
    }
}

/// Whether `SystemTime` can surely express a time so many seconds after the epoch.  The
/// standard library leaves open how it counts; with seconds of 32 bits it ends in 2038,
/// which no machine of 64 bits has.  `humantime` draws the same line on a Unix of 32 bits.
pub open spec fn clock_covers(secs: int) -> bool {
    secs <= 0x7fff_ffff || usize::BITS >= 64
}

/// Whether the machine's clock can express `secs`.
pub(crate) fn clock_reaches(secs: u64) -> (r: bool)
    ensures
        r == clock_covers(secs as int),
{
    secs <= 0x7fff_ffff || usize::BITS >= 64
}

// ---------------------------------------------------------------------------
// Algorithms
// ---------------------------------------------------------------------------

/// The public-key algorithms of OpenPGP.
#[derive(Debug, Clone, Copy, PartialEq, Eq, Structural)]
pub enum PublicKeyAlgorithm {
    RSAEncryptSign,
    RSAEncrypt,
    RSASign,
    ElGamalEncrypt,
    DSA,
    ECDH,
    ECDSA,
    ElGamalEncryptSign,
    EdDSA,
    X25519,
    X448,
    Ed25519,
    Ed448,
    Private(u8),
    Unknown(u8),
}

/// The hash algorithms of OpenPGP.
#[derive(Debug, Clone, Copy, PartialEq, Eq, Structural)]
pub enum HashAlgorithm {
    MD5,
    SHA1,
    RipeMD,
    SHA256,
    SHA384,
    SHA512,
    SHA224,
    SHA3_256,
    SHA3_512,
    Private(u8),
    Unknown(u8),
}

/// The symmetric algorithms that certificates state a preference for.
#[derive(Debug, Clone, Copy, PartialEq, Eq, Structural)]
pub enum SymmetricAlgorithm {
    AES128,
    AES256,
}

/// A name with a number behind it, in round brackets.
pub open spec fn numbered(name: Seq<char>, n: u8) -> Seq<char> {
    name + "("@ + text::decimal_text(n as nat) + ")"@
}

fn numbered_name(name: &str, n: u8) -> (out: String)
    ensures
        out@ == numbered(name@, n),
{
    let mut out = text::join3(name, "(", text::decimal(n as u64).as_str());
    out.append(")");
    out
}

/// The name of a public-key algorithm in messages.
pub open spec fn public_key_algorithm_text(a: PublicKeyAlgorithm) -> Seq<char> {
    match a {
        PublicKeyAlgorithm::RSAEncryptSign => "RSAEncryptSign"@,
        PublicKeyAlgorithm::RSAEncrypt => "RSAEncrypt"@,
        PublicKeyAlgorithm::RSASign => "RSASign"@,
        PublicKeyAlgorithm::ElGamalEncrypt => "ElGamalEncrypt"@,
        PublicKeyAlgorithm::DSA => "DSA"@,
        PublicKeyAlgorithm::ECDH => "ECDH"@,
        PublicKeyAlgorithm::ECDSA => "ECDSA"@,
        PublicKeyAlgorithm::ElGamalEncryptSign => "ElGamalEncryptSign"@,
        PublicKeyAlgorithm::EdDSA => "EdDSA"@,
        PublicKeyAlgorithm::X25519 => "X25519"@,
        PublicKeyAlgorithm::X448 => "X448"@,
        PublicKeyAlgorithm::Ed25519 => "Ed25519"@,
        PublicKeyAlgorithm::Ed448 => "Ed448"@,
        PublicKeyAlgorithm::Private(n) => numbered("Private"@, n),
        PublicKeyAlgorithm::Unknown(n) => numbered("Unknown"@, n),
    }
}

impl PublicKeyAlgorithm {
    /// The name of the algorithm in messages.
    pub fn text(&self) -> (out: String)
        ensures
            out@ == public_key_algorithm_text(*self),
    {
        match self {
            PublicKeyAlgorithm::RSAEncryptSign => "RSAEncryptSign".to_owned(),
            PublicKeyAlgorithm::RSAEncrypt => "RSAEncrypt".to_owned(),
            PublicKeyAlgorithm::RSASign => "RSASign".to_owned(),
            PublicKeyAlgorithm::ElGamalEncrypt => "ElGamalEncrypt".to_owned(),
            PublicKeyAlgorithm::DSA => "DSA".to_owned(),
            PublicKeyAlgorithm::ECDH => "ECDH".to_owned(),
            PublicKeyAlgorithm::ECDSA => "ECDSA".to_owned(),
            PublicKeyAlgorithm::ElGamalEncryptSign => "ElGamalEncryptSign".to_owned(),
            PublicKeyAlgorithm::EdDSA => "EdDSA".to_owned(),
            PublicKeyAlgorithm::X25519 => "X25519".to_owned(),
            PublicKeyAlgorithm::X448 => "X448".to_owned(),
            PublicKeyAlgorithm::Ed25519 => "Ed25519".to_owned(),
            PublicKeyAlgorithm::Ed448 => "Ed448".to_owned(),
            PublicKeyAlgorithm::Private(n) => numbered_name("Private", *n),
            PublicKeyAlgorithm::Unknown(n) => numbered_name("Unknown", *n),
        }
    }
}

/// The name of a hash algorithm in messages.
pub open spec fn hash_algorithm_text(a: HashAlgorithm) -> Seq<char> {
    match a {
        HashAlgorithm::MD5 => "MD5"@,
        HashAlgorithm::SHA1 => "SHA1"@,
        HashAlgorithm::RipeMD => "RipeMD"@,
        HashAlgorithm::SHA256 => "SHA256"@,
        HashAlgorithm::SHA384 => "SHA384"@,
        HashAlgorithm::SHA512 => "SHA512"@,
        HashAlgorithm::SHA224 => "SHA224"@,
        HashAlgorithm::SHA3_256 => "SHA3_256"@,
        HashAlgorithm::SHA3_512 => "SHA3_512"@,
        HashAlgorithm::Private(n) => numbered("Private"@, n),
        HashAlgorithm::Unknown(n) => numbered("Unknown"@, n),
    }
}

impl HashAlgorithm {
    /// The name of the algorithm in messages.
    pub fn text(&self) -> (out: String)
        ensures
            out@ == hash_algorithm_text(*self),
    {
        match self {
            HashAlgorithm::MD5 => "MD5".to_owned(),
            HashAlgorithm::SHA1 => "SHA1".to_owned(),
            HashAlgorithm::RipeMD => "RipeMD".to_owned(),
            HashAlgorithm::SHA256 => "SHA256".to_owned(),
            HashAlgorithm::SHA384 => "SHA384".to_owned(),
            HashAlgorithm::SHA512 => "SHA512".to_owned(),
            HashAlgorithm::SHA224 => "SHA224".to_owned(),
            HashAlgorithm::SHA3_256 => "SHA3_256".to_owned(),
            HashAlgorithm::SHA3_512 => "SHA3_512".to_owned(),
            HashAlgorithm::Private(n) => numbered_name("Private", *n),
            HashAlgorithm::Unknown(n) => numbered_name("Unknown", *n),
        }
    }
}

// ---------------------------------------------------------------------------
// Curves
// ---------------------------------------------------------------------------

/// The elliptic curves of OpenPGP.
#[derive(Debug)]
pub enum Curve {
    NistP256,
    NistP384,
    NistP521,
    BrainpoolP256,
    BrainpoolP384,
    BrainpoolP512,
    Ed25519,
    Cv25519,
    /// Any other curve, by its object identifier.
    Unknown(Vec<u8>),
}

/// The mathematical content of a [`Curve`].
pub enum CurveView {
    NistP256,
    NistP384,
    NistP521,
    BrainpoolP256,
    BrainpoolP384,
    BrainpoolP512,
    Ed25519,
    Cv25519,
    Unknown(Seq<u8>),
}

impl View for Curve {
    type V = CurveView;

    open spec fn view(&self) -> CurveView {
        match self {
            Curve::NistP256 => CurveView::NistP256,
            Curve::NistP384 => CurveView::NistP384,
            Curve::NistP521 => CurveView::NistP521,
            Curve::BrainpoolP256 => CurveView::BrainpoolP256,
            Curve::BrainpoolP384 => CurveView::BrainpoolP384,
            Curve::BrainpoolP512 => CurveView::BrainpoolP512,
            Curve::Ed25519 => CurveView::Ed25519,
            Curve::Cv25519 => CurveView::Cv25519,
            Curve::Unknown(oid) => CurveView::Unknown(oid@),
        }
    }
}

impl Clone for Curve {
    fn clone(&self) -> (c: Self)
        ensures
            c@ == self@,
    {
        match self {
            Curve::NistP256 => Curve::NistP256,
            Curve::NistP384 => Curve::NistP384,
            Curve::NistP521 => Curve::NistP521,
            Curve::BrainpoolP256 => Curve::BrainpoolP256,
            Curve::BrainpoolP384 => Curve::BrainpoolP384,
            Curve::BrainpoolP512 => Curve::BrainpoolP512,
            Curve::Ed25519 => Curve::Ed25519,
            Curve::Cv25519 => Curve::Cv25519,
            Curve::Unknown(oid) => Curve::Unknown(bytes::concat(oid.as_slice(), &[])),
        }
    }
}

/// The size in bytes of one coordinate on a NIST curve.
pub open spec fn coordinate_size(c: CurveView) -> Option<nat> {
    match c {
        CurveView::NistP256 => Some(32),
        CurveView::NistP384 => Some(48),
        CurveView::NistP521 => Some(66),
        _ => None,
    }
}

/// The name of a curve in messages.
pub open spec fn curve_text(c: CurveView) -> Seq<char> {
    match c {
        CurveView::NistP256 => "NistP256"@,
        CurveView::NistP384 => "NistP384"@,
        CurveView::NistP521 => "NistP521"@,
        CurveView::BrainpoolP256 => "BrainpoolP256"@,
        CurveView::BrainpoolP384 => "BrainpoolP384"@,
        CurveView::BrainpoolP512 => "BrainpoolP512"@,
        CurveView::Ed25519 => "Ed25519"@,
        CurveView::Cv25519 => "Cv25519"@,
        CurveView::Unknown(oid) => "Unknown("@ + text::byte_list_text(oid) + ")"@,
    }
}

impl Curve {
    /// The size in bytes of one coordinate, where the curve is a NIST curve.
    pub fn coordinate_size(&self) -> (n: Option<usize>)
        ensures
            match coordinate_size(self@) {
                Some(k) => n matches Some(m) && m == k,
                None => n is None,
            },
            n matches Some(m) ==> m == 32 || m == 48 || m == 66,
    {
        match self {
            Curve::NistP256 => Some(32),
            Curve::NistP384 => Some(48),
            Curve::NistP521 => Some(66),
            _ => None,
        }
    }

    /// The name of the curve in messages.
    pub fn text(&self) -> (out: String)
        ensures
            out@ == curve_text(self@),
    {
        match self {
            Curve::NistP256 => "NistP256".to_owned(),
            Curve::NistP384 => "NistP384".to_owned(),
            Curve::NistP521 => "NistP521".to_owned(),
            Curve::BrainpoolP256 => "BrainpoolP256".to_owned(),
            Curve::BrainpoolP384 => "BrainpoolP384".to_owned(),
            Curve::BrainpoolP512 => "BrainpoolP512".to_owned(),
            Curve::Ed25519 => "Ed25519".to_owned(),
            Curve::Cv25519 => "Cv25519".to_owned(),
            Curve::Unknown(oid) => text::join3(
                "Unknown(",
                text::byte_list(oid.as_slice()).as_str(),
                ")",
            ),
        }
    }

    /// Whether the two curves are the same.
    pub fn same(&self, other: &Curve) -> (r: bool)
        ensures
            r == (self@ == other@),
    {
        match (self, other) {
            (Curve::NistP256, Curve::NistP256) => true,
            (Curve::NistP384, Curve::NistP384) => true,
            (Curve::NistP521, Curve::NistP521) => true,
            (Curve::BrainpoolP256, Curve::BrainpoolP256) => true,
            (Curve::BrainpoolP384, Curve::BrainpoolP384) => true,
            (Curve::BrainpoolP512, Curve::BrainpoolP512) => true,
            (Curve::Ed25519, Curve::Ed25519) => true,
            (Curve::Cv25519, Curve::Cv25519) => true,
            (Curve::Unknown(a), Curve::Unknown(b)) => bytes::same_bytes(
                a.as_slice(),
                b.as_slice(),
            ),
            _ => false,
        }
    }
}

// ---------------------------------------------------------------------------
// Key material
// ---------------------------------------------------------------------------

/// A byte string without its leading zero bytes.
pub open spec fn stripped(value: Seq<u8>) -> Seq<u8>
    decreases value.len(),
{
    if value.len() > 0 && value[0] == 0 {
        stripped(value.skip(1))
    } else {
        value
    }
}

/// `MPI::new` stores a big-endian number without its leading zero bytes;
/// `MPI::value` gives back what was stored.
#[verifier::external_body]
pub(crate) fn new_mpi(value: &[u8]) -> (out: Vec<u8>)
    ensures
        out@ == stripped(value@),
{
    mpi::MPI::new(value).value().to_vec()
}

/// Stripping leading zeros keeps the number.
pub proof fn stripping_keeps_the_number(value: Seq<u8>)
    ensures
        bytes::be_value(stripped(value)) == bytes::be_value(value),
        stripped(value).len() > 0 ==> stripped(value)[0] != 0,
        stripped(value).len() <= value.len(),
    decreases value.len(),
{
    if value.len() > 0 && value[0] == 0 {
        stripping_keeps_the_number(value.skip(1));
        bytes::leading_zeros_are_void(value, 1);
    }
}

/// The public material of a key: what `mpi::PublicKey` holds for RSA and ECDSA.
#[derive(Debug)]
pub enum PublicKey {
    RSA { e: Vec<u8>, n: Vec<u8> },
    ECDSA { curve: Curve, q: Vec<u8> },
    /// The material of a key of any other algorithm.
    Other,
}

/// The mathematical content of a [`PublicKey`].
pub enum PublicKeyView {
    RSA { e: Seq<u8>, n: Seq<u8> },
    ECDSA { curve: CurveView, q: Seq<u8> },
    Other,
}

impl View for PublicKey {
    type V = PublicKeyView;

    open spec fn view(&self) -> PublicKeyView {
        match self {
            PublicKey::RSA { e, n } => PublicKeyView::RSA { e: e@, n: n@ },
            PublicKey::ECDSA { curve, q } => PublicKeyView::ECDSA { curve: curve@, q: q@ },
            PublicKey::Other => PublicKeyView::Other,
        }
    }
}

impl Clone for PublicKey {
    fn clone(&self) -> (c: Self)
        ensures
            c@ == self@,
    {
        match self {
            PublicKey::RSA { e, n } => PublicKey::RSA {
                e: bytes::concat(e.as_slice(), &[]),
                n: bytes::concat(n.as_slice(), &[]),
            },
            PublicKey::ECDSA { curve, q } => PublicKey::ECDSA {
                curve: curve.clone(),
                q: bytes::concat(q.as_slice(), &[]),
            },
            PublicKey::Other => PublicKey::Other,
        }
    }
}

impl PublicKey {
    /// Whether the two are the same key: the same RSA modulus and exponent, or
    /// the same point on the same curve.
    pub fn same_material(&self, other: &PublicKey) -> (r: bool)
        ensures
            r == (self@ == other@ && self@ !is Other),
    {
        match (self, other) {
            (PublicKey::RSA { e: e1, n: n1 }, PublicKey::RSA { e: e2, n: n2 }) => {
                bytes::same_bytes(e1.as_slice(), e2.as_slice()) && bytes::same_bytes(
                    n1.as_slice(),
                    n2.as_slice(),
                )
            },
            (
                PublicKey::ECDSA { curve: c1, q: q1 },
                PublicKey::ECDSA { curve: c2, q: q2 },
            ) => { c1.same(c2) && bytes::same_bytes(q1.as_slice(), q2.as_slice()) },
            _ => false,
        }
    }
}

// ---------------------------------------------------------------------------
// Keys and fingerprints
// ---------------------------------------------------------------------------

/// A public key: its material, and the creation time that it is stamped with.
#[derive(Debug)]
pub struct Key {
    pub creation_time: u32,
    pub pk_algo: PublicKeyAlgorithm,
    pub mpis: PublicKey,
}

/// The mathematical content of a [`Key`].
pub struct KeyView {
    pub creation_time: u32,
    pub pk_algo: PublicKeyAlgorithm,
    pub mpis: PublicKeyView,
}

impl View for Key {
    type V = KeyView;

    open spec fn view(&self) -> KeyView {
        KeyView {
            creation_time: self.creation_time,
            pk_algo: self.pk_algo,
            mpis: self.mpis@,
        }
    }
}

impl Clone for Key {
    fn clone(&self) -> (k: Self)
        ensures
            k@ == self@,
    {
        Key {
            creation_time: self.creation_time,
            pk_algo: self.pk_algo,
            mpis: self.mpis.clone(),
        }
    }
}

/// A bound on the size in bytes of key material as it is hashed for a
/// fingerprint: each number with a length of two bytes before it, and for ECDSA
/// the identifier of the curve, eight bytes at most, with a length of one byte
/// before it.
pub open spec fn hashed_size(m: PublicKeyView) -> nat {
    match m {
        PublicKeyView::RSA { e, n } => e.len() + n.len() + 4,
        PublicKeyView::ECDSA { curve, q } => q.len() + 2 + 1 + 8,
        PublicKeyView::Other => 0,
    }
}

/// Whether a key is one that this library works with: RSA material under RSA, or
/// a point on a NIST curve under ECDSA, small enough for a fingerprint to exist.
pub open spec fn usable(k: KeyView) -> bool {
    &&& hashed_size(k.mpis) + 6 <= 0xffff
    &&& match k.mpis {
        PublicKeyView::RSA { e, n } => k.pk_algo == PublicKeyAlgorithm::RSAEncryptSign,
        PublicKeyView::ECDSA { curve, q } => k.pk_algo == PublicKeyAlgorithm::ECDSA
            && coordinate_size(curve) is Some,
        PublicKeyView::Other => false,
    }
}

/// The fingerprint of a version 4 key with the given creation time and material.
pub uninterp spec fn v4_fingerprint(creation_time: u32, material: PublicKeyView) -> Seq<u8>;

/// `Key4::new` and `Key4::fingerprint`: the SHA-1 digest of the creation time, the
/// algorithm and the material of a key, under a header.  The digest is named; it
/// has twenty bytes.  The header holds the length of what follows in two bytes,
/// and the function panics on material that does not fit.
#[verifier::external_body]
pub(crate) fn key4_fingerprint(creation_time: u32, material: &PublicKey) -> (out: Vec<u8>)
    requires
        clock_covers(creation_time as int),
        hashed_size(material@) + 6 <= 0xffff,
        match material@ {
            PublicKeyView::RSA { .. } => true,
            PublicKeyView::ECDSA { curve, .. } => coordinate_size(curve) is Some,
            PublicKeyView::Other => false,
        },
    ensures
        out@ == v4_fingerprint(creation_time, material@),
        out@.len() == 20,
{
    let mpis = match material {
        PublicKey::RSA { e, n } => mpi::PublicKey::RSA { e: mpi::MPI::new(e), n: mpi::MPI::new(n) },
        PublicKey::ECDSA { curve, q } => {
            let curve = match curve {
                Curve::NistP256 => pgp::Curve::NistP256,
                Curve::NistP384 => pgp::Curve::NistP384,
                _ => pgp::Curve::NistP521,
            };
            mpi::PublicKey::ECDSA { curve, q: mpi::MPI::new(q) }
        },
        PublicKey::Other => return Vec::new(),
    };
    let (time, algo) = (pgp::Timestamp::from(creation_time), mpis.algo().unwrap());
    let key = Key4::<PublicParts, PrimaryRole>::new(time, algo, mpis);
    key.unwrap().fingerprint().as_bytes().to_vec()
}

/// The error for a time that OpenPGP cannot express.
pub open spec fn unrepresentable_time(t: UnixTime) -> error::ErrorView {
    error::ErrorView::Other(
        "Invalid argument: time "@ + text::decimal_text(t.secs as nat)
            + " s after the epoch is not representable in OpenPGP"@,
    )
}

impl Key {
    /// Whether the key is one that this library works with.
    pub fn is_usable(&self) -> (r: bool)
        ensures
            r == usable(self@),
    {
        match &self.mpis {
            PublicKey::RSA { e, n } => self.pk_algo == PublicKeyAlgorithm::RSAEncryptSign && e.len()
                <= 0xffff && n.len() <= 0xffff && e.len() + n.len() + 10 <= 0xffff,
            PublicKey::ECDSA { curve, q } => self.pk_algo == PublicKeyAlgorithm::ECDSA
                && curve.coordinate_size().is_some() && q.len() <= 0xffff - 17,
            PublicKey::Other => false,
        }
    }

    /// A key with the given creation time and material.  OpenPGP counts seconds in
    /// 32 bits, so that later times are refused; fractions of a second are dropped.
    pub fn new(creation_time: UnixTime, pk_algo: PublicKeyAlgorithm, mpis: PublicKey) -> (r: Result<
        Key,
        Error,
    >)
        ensures
            if creation_time.secs <= u32::MAX {
                r matches Ok(k) && k@ == (KeyView {
                    creation_time: creation_time.secs as u32,
                    pk_algo,
                    mpis: mpis@,
                })
            } else {
                error::fails_with(r, unrepresentable_time(creation_time))
            },
    {
        if creation_time.secs <= u32::MAX as u64 {
            Ok(Key { creation_time: creation_time.secs as u32, pk_algo, mpis })
        } else {
            Err(
                Error::Other(
                    text::join3(
                        "Invalid argument: time ",
                        text::decimal(creation_time.secs).as_str(),
                        " s after the epoch is not representable in OpenPGP",
                    ),
                ),
            )
        }
    }

    /// The fingerprint of the key.
    pub fn fingerprint(&self) -> (f: Fingerprint)
        requires
            usable(self@),
            clock_covers(self.creation_time as int),
        ensures
            f@ == v4_fingerprint(self@.creation_time, self@.mpis),
            f@.len() == 20,
    {
        Fingerprint { bytes: key4_fingerprint(self.creation_time, &self.mpis) }
    }
}

/// A fingerprint.
#[derive(Debug)]
pub struct Fingerprint {
    pub bytes: Vec<u8>,
}

impl View for Fingerprint {
    type V = Seq<u8>;

    open spec fn view(&self) -> Seq<u8> {
        self.bytes@
    }
}

impl Clone for Fingerprint {
    fn clone(&self) -> (f: Self)
        ensures
            f@ == self@,
    {
        Fingerprint { bytes: vstd::slice::slice_to_vec(self.bytes.as_slice()) }
    }
}

/// The upper-case hexadecimal digit of a number below sixteen.
pub open spec fn upper_digit(n: nat) -> char {
    if n < 10 {
        ('0' as u32 + n) as char
    } else {
        ('A' as u32 + (n - 10)) as char
    }
}

/// The upper-case hexadecimal notation of a byte string.
pub open spec fn upper_hex(b: Seq<u8>) -> Seq<char>
    decreases b.len(),
{
    if b.len() == 0 {
        Seq::empty()
    } else {
        upper_hex(b.drop_last()).push(upper_digit((b.last() / 16) as nat)).push(
            upper_digit((b.last() % 16) as nat),
        )
    }
}

fn upper_hex_digit(n: u8) -> (c: char)
    requires
        n < 16,
    ensures
        c == upper_digit(n as nat),
{
    if n < 10 {
        (48u8 + n) as char
    } else {
        (55u8 + n) as char
    }
}

impl Fingerprint {
    /// The fingerprint in upper-case hexadecimal notation.
    pub fn text(&self) -> (out: String)
        ensures
            out@ == upper_hex(self@),
    {
        let mut out = String::new();
        let mut i: usize = 0;
        while i < self.bytes.len()
            invariant
                i <= self.bytes.len(),
                out@ == upper_hex(self.bytes@.take(i as int)),
            decreases self.bytes.len() - i,
        {
            let b: u8 = self.bytes[i];
            out.push(upper_hex_digit(b / 16));
            out.push(upper_hex_digit(b % 16));
            i += 1;
            assert(self.bytes@.take(i as int).drop_last() =~= self.bytes@.take(i - 1));
        }
        assert(self.bytes@.take(i as int) =~= self.bytes@);
        out
    }

    /// Whether the two fingerprints are the same.
    pub fn same(&self, other: &Fingerprint) -> (r: bool)
        ensures
            r == (self@ == other@),
    {
        bytes::same_bytes(self.bytes.as_slice(), other.bytes.as_slice())
    }
}

// ---------------------------------------------------------------------------
// Laws
// ---------------------------------------------------------------------------

/// A key can be worked with exactly if it is RSA, or on a NIST curve, under the algorithm of
/// its material, and small enough that a length of two bytes covers it.
pub proof fn usable_keys_have_fingerprints(k: KeyView)
    ensures
        usable(k) ==> k.mpis is RSA || k.mpis is ECDSA,
        k.mpis matches PublicKeyView::RSA { e, n } ==> (usable(k) <==> k.pk_algo
            == PublicKeyAlgorithm::RSAEncryptSign && 1 + 4 + 1 + (2 + e.len()) + (2 + n.len())
            <= 0xffff),
        k.mpis matches PublicKeyView::ECDSA { curve, q } ==> (usable(k) <==> k.pk_algo
            == PublicKeyAlgorithm::ECDSA && (curve == CurveView::NistP256 || curve
            == CurveView::NistP384 || curve == CurveView::NistP521) && 1 + 4 + 1 + (1 + 8) + (2
            + q.len()) <= 0xffff),
{
}

} // verus!
