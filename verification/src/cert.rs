//! Certificates: what is read from one, what goes into one, and how it is written.

use vstd::prelude::*;

use std::io::{Read, Write};
use std::time::{Duration, SystemTime};

use sequoia_openpgp::armor;
use sequoia_openpgp::cert::amalgamation::ValidAmalgamation;
use sequoia_openpgp::crypto::mpi;
use sequoia_openpgp::packet::header::{BodyLength, CTB};
use sequoia_openpgp::packet::key::{UnspecifiedParts, UnspecifiedRole};
use sequoia_openpgp::packet::Key as PgpKey;
use sequoia_openpgp::packet::{Any, Tag, UserID};
use sequoia_openpgp::parse::{PacketParser, PacketParserResult, Parse};
use sequoia_openpgp::policy::StandardPolicy;
use sequoia_openpgp::serialize::{Marshal, MarshalInto};
use sequoia_openpgp::types::RevocationStatus;

use crate::bytes;
use crate::der;
use crate::error;
use crate::error::Error;
use crate::openpgp;
use crate::openpgp::{
    Curve, Fingerprint, HashAlgorithm, Key, PublicKey, SymmetricAlgorithm, UnixTime,
};
use crate::text;
use crate::time;

verus! {

// ---------------------------------------------------------------------------
// Reading certificates
// ---------------------------------------------------------------------------

/// What a packet holds: of a key the version and the size of its public material, and of a
/// user ID its value.
#[derive(Debug)]
pub struct PacketContent {
    pub key: Option<(u8, usize)>,
    pub user_id: Option<Vec<u8>>,
}

/// The mathematical content of a [`PacketContent`].
pub struct PacketContentView {
    pub key: Option<(u8, usize)>,
    pub user_id: Option<Seq<u8>>,
}

impl View for PacketContent {
    type V = PacketContentView;

    open spec fn view(&self) -> PacketContentView {
        PacketContentView {
            key: self.key,
            user_id: match self.user_id {
                Some(u) => Some(u@),
                None => None,
            },
        }
    }
}

/// The mathematical content of a list of packets.
pub open spec fn content_views(packets: Seq<PacketContent>) -> Seq<PacketContentView> {
    packets.map_values(|p: PacketContent| p@)
}

/// What the packets of a stream hold, in order: those of the first block of armor, or
/// those without armor, then those of the blocks that follow, up to the end or to the
/// first fault.
pub uninterp spec fn packet_contents(data: Seq<u8>) -> Seq<PacketContentView>;

/// `PacketParser::from_bytes` reads the packets of a stream, armored or not, and
/// `PacketParser::from_buffered_reader` goes on behind the end of a block of armor, as
/// `Cert::from_bytes` does.  `serialized_len` is the size of the public material of a
/// key.  What the packets hold is named.
#[verifier::external_body]
pub(crate) fn read_packets(data: &[u8]) -> (r: Vec<PacketContent>)
    ensures
        content_views(r@) == packet_contents(data@),
{
    let mut all = Vec::new();
    let mut stream = PacketParser::from_bytes(data);
    while let Ok(PacketParserResult::Some(parser)) = stream {
        stream = parser.next().and_then(|(p, rest)| {
            let key: Option<&PgpKey<UnspecifiedParts, UnspecifiedRole>> = p.downcast_ref();
            let key = key.map(|k| (k.version(), k.mpis().serialized_len()));
            let user_id: Option<&UserID> = p.downcast_ref();
            all.push(PacketContent { key, user_id: user_id.map(|u| u.value().to_vec()) });
            match rest {
                PacketParserResult::EOF(end) => PacketParser::from_buffered_reader(end.into_reader()),
                more => Ok(more),
            }
        });
    }
    all
}

/// The user IDs in a stream of packets.
pub open spec fn user_ids(data: Seq<u8>) -> Set<Seq<u8>> {
    Set::new(
        |u: Seq<u8>|
            exists|i: int|
                0 <= i < packet_contents(data).len() && (#[trigger] packet_contents(data)[i]).user_id
                    == Some(u),
    )
}

/// The largest material of a version 4 key: with the six bytes before it, its length has
/// to fit the two bytes that a fingerprint covers.
pub const MAX_MATERIAL: usize = 0xfff9;

/// The largest material of a version 6 key: with the ten bytes before it, its length has
/// to fit four bytes.
pub const MAX_MATERIAL_V6: usize = 0xffff_fff5;

/// The largest material of a key of the given version.
pub open spec fn material_limit(version: u8) -> usize {
    if version == 6 {
        MAX_MATERIAL_V6
    } else {
        MAX_MATERIAL
    }
}

/// The size of the first key in a list of packets whose material is too large.
pub open spec fn oversized(packets: Seq<PacketContentView>) -> Option<usize>
    decreases packets.len(),
{
    if packets.len() == 0 {
        None
    } else {
        match packets[0].key {
            Some((version, n)) => if n > material_limit(version) {
                Some(n)
            } else {
                oversized(packets.drop_first())
            },
            None => oversized(packets.drop_first()),
        }
    }
}

/// Why the keys in a stream of packets cannot be dealt with, if they cannot.
pub open spec fn size_fault(data: Seq<u8>) -> Option<error::ErrorView> {
    match oversized(packet_contents(data)) {
        Some(n) => Some(
            parsing_error(
                "key material of "@ + text::decimal_text(n as nat) + " bytes is not supported"@,
            ),
        ),
        None => None,
    }
}

fn check_sizes(data: &[u8]) -> (r: Result<(), Error>)
    ensures
        match size_fault(data@) {
            Some(e) => error::fails_with(r, e),
            None => r is Ok,
        },
{
    let packets = read_packets(data);
    let ghost views = content_views(packets@);
    let mut i: usize = 0;
    assert(views.skip(0) =~= views);
    while i < packets.len()
        invariant
            i <= packets.len(),
            views == content_views(packets@),
            views == packet_contents(data@),
            oversized(views) == oversized(views.skip(i as int)),
        decreases packets.len() - i,
    {
        assert(views.skip(i as int).drop_first() =~= views.skip(i + 1));
        assert(views.skip(i as int)[0] == packets@[i as int]@);
        if let Some((version, n)) = packets[i].key {
            let limit: usize = if version == 6 {
                MAX_MATERIAL_V6
            } else {
                MAX_MATERIAL
            };
            if n > limit {
                let message = text::join3(
                    "key material of ",
                    text::decimal(n as u64).as_str(),
                    " bytes is not supported",
                );
                return Err(Error::Other(text::join2("parsing cert: ", message.as_str())));
            }
        }
        i += 1;
    }
    Ok(())
}

/// A key of a certificate as the OpenPGP implementation hands it out: the body of its
/// packet, the number of its algorithm, and the numbers of its material.
#[derive(Debug)]
pub struct RawKey {
    pub body: Vec<u8>,
    pub algo: u8,
    pub numbers: Vec<Vec<u8>>,
}

/// The mathematical content of a [`RawKey`].
pub struct RawKeyView {
    pub body: Seq<u8>,
    pub algo: u8,
    pub numbers: Seq<Seq<u8>>,
}

impl View for RawKey {
    type V = RawKeyView;

    open spec fn view(&self) -> RawKeyView {
        RawKeyView {
            body: self.body@,
            algo: self.algo,
            numbers: self.numbers@.map_values(|v: Vec<u8>| v@),
        }
    }
}

/// The mathematical content of a list of raw keys.
pub open spec fn raw_views(keys: Seq<RawKey>) -> Seq<RawKeyView> {
    keys.map_values(|k: RawKey| k@)
}

/// The keys that a certificate consists of, the primary key first, or what is said
/// of bytes that are no certificate.
pub uninterp spec fn certificate_keys(data: Seq<u8>) -> Result<Seq<RawKeyView>, Seq<char>>;

/// The creation time in the body of a key packet: the four bytes behind the first one,
/// which is the version.
pub open spec fn body_time(body: Seq<u8>) -> u32 {
    bytes::be_value(body.subrange(1, 5)) as u32
}

/// Whether a key is one whose fingerprint [`openpgp::v4_fingerprint`] names: a version 4
/// key that is RSA under the algorithm 1, or ECDSA on a NIST curve.
pub open spec fn is_v4(version: u8, algo: u8, m: openpgp::PublicKeyView) -> bool {
    version == 4 && match m {
        openpgp::PublicKeyView::RSA { e, n } => algo == 1,
        openpgp::PublicKeyView::ECDSA { curve, q } => algo == 19 && openpgp::coordinate_size(
            curve,
        ) is Some,
        openpgp::PublicKeyView::Other => false,
    }
}

/// The fingerprint `f` of a key that was read from a certificate is the one of a key that
/// is made from the same creation time and material.
pub open spec fn fingerprint_agrees(raw: RawKeyView, f: Result<Seq<u8>, Seq<char>>) -> bool {
    6 <= raw.body.len() <= 0xffff && is_v4(raw.body[0], raw.algo, material_of(raw)) ==> f == Ok::<
        Seq<u8>,
        Seq<char>,
    >(openpgp::v4_fingerprint(body_time(raw.body), material_of(raw)))
}

/// `Cert::from_bytes` reads a certificate, armored or not, and `Cert::keys` lists its
/// keys, the primary key first; every certificate has one.  For RSA the numbers are
/// the exponent and the modulus, for ECDSA the identifier of the curve and the point,
/// and for other algorithms there are none.  Which keys a certificate has is named.  A
/// version 4 key has the fingerprint of its creation time and its material; see
/// [`fingerprint_agrees`].  The function panics on key material that is too large for a
/// fingerprint, which [`size_fault`] excludes.
#[verifier::external_body]
pub(crate) fn read_certificate(data: &[u8]) -> (r: Result<Vec<RawKey>, String>)
    requires
        size_fault(data@) is None,
    ensures
        match r {
            Ok(keys) => certificate_keys(data@) == Ok::<Seq<RawKeyView>, Seq<char>>(
                raw_views(keys@),
            ) && keys@.len() > 0,
            Err(e) => certificate_keys(data@) == Err::<Seq<RawKeyView>, Seq<char>>(e@),
        },
        r matches Ok(keys) ==> forall|i: int|
            0 <= i < keys@.len() ==> fingerprint_agrees(
                #[trigger] keys@[i]@,
                packet_fingerprint(keys@[i]@.body),
            ),
{
    let cert = sequoia_openpgp::Cert::from_bytes(data).map_err(|e| e.to_string())?;
    let mut keys = Vec::new();
    for k in cert.keys() {
        let numbers = match k.key().mpis() {
            mpi::PublicKey::RSA { e, n } => vec![e.value().to_vec(), n.value().to_vec()],
            mpi::PublicKey::ECDSA { curve, q } => vec![curve.oid().to_vec(), q.value().to_vec()],
            _ => vec![],
        };
        let body = k.key().to_vec().map_err(|e| e.to_string())?;
        keys.push(RawKey { body, algo: u8::from(k.key().pk_algo()), numbers });
    }
    Ok(keys)
}

/// The fingerprint of the key with the given packet body, or what is said of a body
/// that cannot be read.
pub uninterp spec fn packet_fingerprint(body: Seq<u8>) -> Result<Seq<u8>, Seq<char>>;

/// The longest body of a key packet, whose first byte is the version: the digest that
/// identifies the key covers its length in two bytes, and in four for version 6.
pub open spec fn body_limit(body: Seq<u8>) -> nat {
    if body.len() > 0 && body[0] == 6 {
        0xffff_ffff
    } else {
        0xffff
    }
}

/// `Key::from_bytes` reads the body of a key packet, and `Key::fingerprint` computes
/// the digest that identifies the key, which is named.  The function panics on a body
/// that is longer than [`body_limit`].
#[verifier::external_body]
pub(crate) fn body_fingerprint(body: &[u8]) -> (r: Result<Vec<u8>, String>)
    requires
        body@.len() <= body_limit(body@),
    ensures
        match r {
            Ok(f) => packet_fingerprint(body@) == Ok::<Seq<u8>, Seq<char>>(f@),
            Err(e) => packet_fingerprint(body@) == Err::<Seq<u8>, Seq<char>>(e@),
        },
{
    match PgpKey::<UnspecifiedParts, UnspecifiedRole>::from_bytes(body) {
        Ok(key) => Ok(key.fingerprint().as_bytes().to_vec()),
        Err(e) => Err(e.to_string()),
    }
}

/// A key of a certificate.
#[derive(Debug)]
pub struct CertKey {
    pub fingerprint: Fingerprint,
    pub version: u8,
    pub algo: u8,
    pub creation_time: u32,
    pub material: PublicKey,
}

/// The mathematical content of a [`CertKey`].
pub struct CertKeyView {
    pub fingerprint: Seq<u8>,
    pub version: u8,
    pub algo: u8,
    pub creation_time: u32,
    pub material: openpgp::PublicKeyView,
}

impl View for CertKey {
    type V = CertKeyView;

    open spec fn view(&self) -> CertKeyView {
        CertKeyView {
            fingerprint: self.fingerprint@,
            version: self.version,
            algo: self.algo,
            creation_time: self.creation_time,
            material: self.material@,
        }
    }
}

impl Clone for CertKey {
    fn clone(&self) -> (k: Self)
        ensures
            k@ == self@,
    {
        CertKey {
            fingerprint: self.fingerprint.clone(),
            version: self.version,
            algo: self.algo,
            creation_time: self.creation_time,
            material: self.material.clone(),
        }
    }
}

/// The mathematical content of a list of keys.
pub open spec fn key_views(keys: Seq<CertKey>) -> Seq<CertKeyView> {
    keys.map_values(|k: CertKey| k@)
}

/// A certificate: its keys, and the bytes that it was read from.
#[derive(Debug)]
pub struct Cert {
    pub primary: CertKey,
    pub subkeys: Vec<CertKey>,
    pub data: Vec<u8>,
}

/// The curve with the given object identifier.
pub open spec fn curve_by_oid(oid: Seq<u8>) -> openpgp::CurveView {
    match der::curve_of_oid(oid) {
        Some(curve) => curve,
        None => openpgp::CurveView::Unknown(oid),
    }
}

/// The material of a key of a certificate.  The algorithms 1 to 3 are RSA, 19 is ECDSA.
pub open spec fn material_of(raw: RawKeyView) -> openpgp::PublicKeyView {
    if 1 <= raw.algo <= 3 && raw.numbers.len() == 2 {
        openpgp::PublicKeyView::RSA { e: raw.numbers[0], n: raw.numbers[1] }
    } else if raw.algo == 19 && raw.numbers.len() == 2 {
        openpgp::PublicKeyView::ECDSA {
            curve: curve_by_oid(raw.numbers[0]),
            q: raw.numbers[1],
        }
    } else {
        openpgp::PublicKeyView::Other
    }
}

fn curve_with_oid(oid: &Vec<u8>) -> (c: Curve)
    ensures
        c@ == curve_by_oid(oid@),
{
    let mut wrapped: Vec<u8> = Vec::new();
    if oid.len() > 255 {
        proof {
            assert(oid@.len() != 8 && oid@.len() != 5);
        }
        return Curve::Unknown(bytes::concat(oid.as_slice(), &[]));
    }
    wrapped.push(0x06);
    wrapped.push(oid.len() as u8);
    let der = bytes::concat(wrapped.as_slice(), oid.as_slice());
    assert(der@.subrange(2, 2 + der@[1]) =~= oid@);
    match der::oid_to_curve(der.as_slice()) {
        Ok(curve) => curve,
        Err(_) => {
            let copy = bytes::concat(oid.as_slice(), &[]);
            assert(copy@ =~= oid@);
            Curve::Unknown(copy)
        },
    }
}

fn read_material(raw: &RawKey) -> (m: PublicKey)
    ensures
        m@ == material_of(raw@),
{
    if raw.numbers.len() != 2 {
        return PublicKey::Other;
    }
    let first = bytes::concat(raw.numbers[0].as_slice(), &[]);
    let second = bytes::concat(raw.numbers[1].as_slice(), &[]);
    assert(first@ =~= raw@.numbers[0] && second@ =~= raw@.numbers[1]);
    if 1 <= raw.algo && raw.algo <= 3 {
        PublicKey::RSA { e: first, n: second }
    } else if raw.algo == 19 {
        PublicKey::ECDSA { curve: curve_with_oid(&first), q: second }
    } else {
        PublicKey::Other
    }
}

/// An error that says why bytes are no certificate.
pub open spec fn parsing_error(message: Seq<char>) -> error::ErrorView {
    error::ErrorView::Other("parsing cert: "@ + message)
}

/// A key of a certificate.
pub open spec fn cert_key_of(raw: RawKeyView) -> Result<CertKeyView, error::ErrorView> {
    if raw.body.len() < 6 || raw.body.len() > body_limit(raw.body) {
        Err(
            parsing_error(
                "key packet of "@ + text::decimal_text(raw.body.len()) + " bytes is not supported"@,
            ),
        )
    } else {
        match packet_fingerprint(raw.body) {
            Err(message) => Err(parsing_error(message)),
            Ok(fingerprint) => Ok(
                CertKeyView {
                    fingerprint,
                    version: raw.body[0],
                    algo: raw.algo,
                    creation_time: body_time(raw.body),
                    material: material_of(raw),
                },
            ),
        }
    }
}

fn read_cert_key(raw: &RawKey) -> (r: Result<CertKey, Error>)
    ensures
        match cert_key_of(raw@) {
            Ok(key) => r matches Ok(k) && k@ == key,
            Err(e) => error::fails_with(r, e),
        },
{
    let limit: u64 = if raw.body.len() > 0 && raw.body[0] == 6 {
        0xffff_ffff
    } else {
        0xffff
    };
    if raw.body.len() < 6 || raw.body.len() as u64 > limit {
        let message = text::join3(
            "key packet of ",
            text::decimal(raw.body.len() as u64).as_str(),
            " bytes is not supported",
        );
        return Err(Error::Other(text::join2("parsing cert: ", message.as_str())));
    }
    let fingerprint = match body_fingerprint(raw.body.as_slice()) {
        Ok(f) => f,
        Err(e) => {
            return Err(Error::Other(text::join2("parsing cert: ", e.as_str())));
        },
    };
    let ghost field = raw.body@.subrange(1, 5);
    proof {
        assert(field.drop_last().drop_last().drop_last().drop_last() =~= Seq::empty());
        reveal_with_fuel(bytes::be_value, 5);
    }
    let creation_time: u32 = ((raw.body[1] as u32 * 256 + raw.body[2] as u32) * 256
        + raw.body[3] as u32) * 256 + raw.body[4] as u32;
    Ok(
        CertKey {
            fingerprint: Fingerprint { bytes: fingerprint },
            version: raw.body[0],
            algo: raw.algo,
            creation_time,
            material: read_material(raw),
        },
    )
}

/// The keys of a certificate; the first key that cannot be used is reported.
pub open spec fn cert_keys_of(raw: Seq<RawKeyView>) -> Result<Seq<CertKeyView>, error::ErrorView>
    decreases raw.len(),
{
    if raw.len() == 0 {
        Ok(Seq::empty())
    } else {
        match cert_keys_of(raw.drop_last()) {
            Err(e) => Err(e),
            Ok(keys) => match cert_key_of(raw.last()) {
                Err(e) => Err(e),
                Ok(key) => Ok(keys.push(key)),
            },
        }
    }
}

/// The keys of the certificate that `data` holds, armored or not.
pub open spec fn parsed_keys(data: Seq<u8>) -> Result<Seq<CertKeyView>, error::ErrorView> {
    match size_fault(data) {
        Some(e) => Err(e),
        None => match certificate_keys(data) {
            Err(message) => Err(parsing_error(message)),
            Ok(raw) => cert_keys_of(raw),
        },
    }
}

proof fn cert_keys_errors_persist(raw: Seq<RawKeyView>, n: int)
    requires
        0 <= n <= raw.len(),
        cert_keys_of(raw.take(n)) is Err,
    ensures
        cert_keys_of(raw) == cert_keys_of(raw.take(n)),
    decreases raw.len() - n,
{
    if n < raw.len() {
        assert(raw.take(n + 1).drop_last() =~= raw.take(n));
        cert_keys_errors_persist(raw, n + 1);
    } else {
        assert(raw.take(n) =~= raw);
    }
}

proof fn cert_keys_of_first(raw: Seq<RawKeyView>)
    requires
        raw.len() > 0,
    ensures
        cert_keys_of(raw.take(1)) == match cert_key_of(raw[0]) {
            Ok(key) => Ok::<Seq<CertKeyView>, error::ErrorView>(seq![key]),
            Err(e) => Err(e),
        },
{
    let first = raw.take(1);
    assert(cert_keys_of(first.drop_last()) == Ok::<Seq<CertKeyView>, error::ErrorView>(
        Seq::empty(),
    ));
    assert(first.last() == raw[0]);
    match cert_key_of(raw[0]) {
        Ok(key) => {
            assert(Seq::empty().push(key) =~= seq![key]);
        },
        Err(e) => {},
    }
}

/// Whether `c` is the certificate with the keys `keys`, the primary key first, that was
/// read from `data`.
pub open spec fn is_cert(c: Cert, data: Seq<u8>, keys: Seq<CertKeyView>) -> bool {
    &&& seq![c.primary@] + key_views(c.subkeys@) == keys
    &&& c.data@ == data
}

/// Whether the keys of `c` are those in the bytes that it holds.
pub open spec fn is_read(c: Cert) -> bool {
    parsed_keys(c.data@) matches Ok(keys) && is_cert(c, c.data@, keys)
}

/// Converts the keys that were read; the primary key is the first one.
pub fn cert_of_keys(raw: &Vec<RawKey>, data: Vec<u8>) -> (r: Result<Cert, Error>)
    requires
        raw@.len() > 0,
    ensures
        match cert_keys_of(raw_views(raw@)) {
            Ok(keys) => r matches Ok(c) && is_cert(c, data@, keys),
            Err(e) => error::fails_with(r, e),
        },
{
    let ghost views = raw_views(raw@);
    let primary = match read_cert_key(&raw[0]) {
        Ok(key) => key,
        Err(e) => {
            proof {
                cert_keys_of_first(views);
                cert_keys_errors_persist(views, 1);
            }
            return Err(e);
        },
    };
    let mut subkeys: Vec<CertKey> = Vec::new();
    let mut i: usize = 1;
    proof {
        cert_keys_of_first(views);
        assert(seq![primary@] + key_views(subkeys@) =~= seq![primary@]);
    }
    while i < raw.len()
        invariant
            1 <= i <= raw.len(),
            views == raw_views(raw@),
            cert_keys_of(views.take(i as int)) == Ok::<Seq<CertKeyView>, error::ErrorView>(
                seq![primary@] + key_views(subkeys@),
            ),
        decreases raw.len() - i,
    {
        proof {
            assert(views.take(i + 1).drop_last() =~= views.take(i as int));
            assert(views.take(i + 1).last() == raw@[i as int]@);
        }
        match read_cert_key(&raw[i]) {
            Ok(key) => {
                let ghost before = key_views(subkeys@);
                subkeys.push(key);
                assert(key_views(subkeys@) =~= before.push(key@));
                assert(seq![primary@] + key_views(subkeys@) =~= (seq![primary@] + before).push(
                    key@,
                ));
            },
            Err(e) => {
                proof {
                    cert_keys_errors_persist(views, i + 1);
                }
                return Err(e);
            },
        }
        i += 1;
    }
    assert(views.take(i as int) =~= views);
    Ok(Cert { primary, subkeys, data })
}

/// Whether the fingerprint of a key is the one of a key that is made from the same
/// creation time and material.
pub open spec fn is_genuine(k: CertKeyView) -> bool {
    is_v4(k.version, k.algo, k.material) ==> k.fingerprint == openpgp::v4_fingerprint(
        k.creation_time,
        k.material,
    )
}

proof fn keys_are_genuine(raw: Seq<RawKeyView>)
    requires
        cert_keys_of(raw) is Ok,
        forall|i: int|
            0 <= i < raw.len() ==> fingerprint_agrees(
                #[trigger] raw[i],
                packet_fingerprint(raw[i].body),
            ),
    ensures
        cert_keys_of(raw)->Ok_0.len() == raw.len(),
        forall|i: int|
            0 <= i < raw.len() ==> is_genuine(#[trigger] cert_keys_of(raw)->Ok_0[i]),
    decreases raw.len(),
{
    if raw.len() > 0 {
        let head = raw.drop_last();
        assert forall|i: int| 0 <= i < head.len() implies fingerprint_agrees(
            #[trigger] head[i],
            packet_fingerprint(head[i].body),
        ) by {
            assert(head[i] == raw[i]);
        }
        keys_are_genuine(head);
        assert(fingerprint_agrees(raw[raw.len() - 1], packet_fingerprint(raw.last().body)));
    }
}

/// Reads a public certificate, armored or not.
pub fn parse_cert(data: &[u8]) -> (r: Result<Cert, Error>)
    ensures
        match parsed_keys(data@) {
            Ok(keys) => r matches Ok(c) && is_cert(c, data@, keys),
            Err(e) => error::fails_with(r, e),
        },
        r matches Ok(c) ==> is_genuine(c.primary@) && forall|i: int|
            0 <= i < c.subkeys@.len() ==> is_genuine((#[trigger] c.subkeys@[i])@),
{
    match check_sizes(data) {
        Ok(()) => {},
        Err(e) => {
            return Err(e);
        },
    }
    let raw = match read_certificate(data) {
        Ok(raw) => raw,
        Err(e) => {
            return Err(Error::Other(text::join2("parsing cert: ", e.as_str())));
        },
    };
    match cert_of_keys(&raw, vstd::slice::slice_to_vec(data)) {
        Ok(cert) => {
            proof {
                let views = raw_views(raw@);
                assert forall|i: int| 0 <= i < views.len() implies fingerprint_agrees(
                    #[trigger] views[i],
                    packet_fingerprint(views[i].body),
                ) by {
                    assert(views[i] == raw@[i]@);
                }
                keys_are_genuine(views);
                let keys = cert_keys_of(views)->Ok_0;
                assert(keys[0] == cert.primary@);
                assert forall|i: int| 0 <= i < cert.subkeys@.len() implies is_genuine(
                    (#[trigger] cert.subkeys@[i])@,
                ) by {
                    assert(keys[i + 1] == cert.subkeys@[i]@);
                }
            }
            Ok(cert)
        },
        Err(e) => Err(e),
    }
}

// ---------------------------------------------------------------------------
// Current signing keys
// ---------------------------------------------------------------------------

/// Whether one of the keys of the certificate `data` has the fingerprint `f`.
pub open spec fn is_key_of(data: Seq<u8>, f: Seq<u8>) -> bool {
    certificate_keys(data) matches Ok(keys) && exists|i: int|
        0 <= i < keys.len() && packet_fingerprint((#[trigger] keys[i]).body) == Ok::<
            Seq<u8>,
            Seq<char>,
        >(f)
}

/// Whether all fingerprints are those of keys of the certificate `data`.
pub open spec fn are_keys_of(data: Seq<u8>, fs: Seq<Seq<u8>>) -> bool {
    forall|i: int| 0 <= i < fs.len() ==> is_key_of(data, #[trigger] fs[i])
}

/// What a certificate says of one of its keys at some time: whether the key is alive,
/// whether it is revoked, whether the whole certificate is, and whether the key may sign.
#[derive(Debug)]
pub struct KeyStatus {
    pub fingerprint: Fingerprint,
    pub alive: bool,
    pub revoked: bool,
    pub cert_revoked: bool,
    pub signing: bool,
}

/// The mathematical content of a [`KeyStatus`].
pub struct KeyStatusView {
    pub fingerprint: Seq<u8>,
    pub alive: bool,
    pub revoked: bool,
    pub cert_revoked: bool,
    pub signing: bool,
}

impl View for KeyStatus {
    type V = KeyStatusView;

    open spec fn view(&self) -> KeyStatusView {
        KeyStatusView {
            fingerprint: self.fingerprint@,
            alive: self.alive,
            revoked: self.revoked,
            cert_revoked: self.cert_revoked,
            signing: self.signing,
        }
    }
}

/// The mathematical content of a list of statuses.
pub open spec fn status_views(s: Seq<KeyStatus>) -> Seq<KeyStatusView> {
    s.map_values(|k: KeyStatus| k@)
}

/// Whether `s` can be what is reported of the keys of the certificate `data` at the given
/// time.  Machines whose cryptographic libraries support different algorithms can report
/// different things.
pub uninterp spec fn reported(data: Seq<u8>, secs: u64, nanos: u32, s: Seq<KeyStatusView>) -> bool;

/// `Cert::keys` under the `StandardPolicy` at the time `now`: for each key that is bound
/// to the certificate what `alive`, `revocation_status` and `for_signing` say of it, and
/// what `Cert::revocation_status` says of the certificate.  This succeeds for every
/// certificate that can be read, and the fingerprints are those of keys of the
/// certificate.  What is said of the keys depends on the algorithms that the machine's
/// cryptographic library supports, so that it is not fixed: only that it is a report on
/// this certificate at this time is claimed.
#[verifier::external_body]
pub(crate) fn key_statuses(data: &[u8], now: UnixTime) -> (r: Result<Vec<KeyStatus>, String>)
    requires
        size_fault(data@) is None,
        time::is_ordinary(now),
        now.nanos < 1_000_000_000,
    ensures
        match r {
            Ok(s) => {
                &&& certificate_keys(data@) is Ok
                &&& reported(data@, now.secs, now.nanos, status_views(s@))
                &&& forall|i: int|
                    0 <= i < s@.len() ==> is_key_of(data@, (#[trigger] s@[i])@.fingerprint)
            },
            Err(e) => certificate_keys(data@) == Err::<Seq<RawKeyView>, Seq<char>>(e@),
        },
{
    let time = SystemTime::UNIX_EPOCH + Duration::new(now.secs, now.nanos);
    let policy = StandardPolicy::new();
    let cert = sequoia_openpgp::Cert::from_bytes(data).map_err(|e| e.to_string())?;
    let whole = cert.revocation_status(&policy, time);
    let keys = cert.keys().with_policy(&policy, time).map(|k| KeyStatus {
        fingerprint: Fingerprint { bytes: k.key().fingerprint().as_bytes().to_vec() },
        alive: k.alive().is_ok(),
        revoked: matches!(k.revocation_status(), RevocationStatus::Revoked(_)),
        cert_revoked: matches!(whole, RevocationStatus::Revoked(_)),
        signing: k.for_signing(),
    });
    Ok(keys.collect())
}

/// The mathematical content of a list of fingerprints.
pub open spec fn fingerprint_views(fs: Seq<Fingerprint>) -> Seq<Seq<u8>> {
    fs.map_values(|f: Fingerprint| f@)
}

/// Whether a key is a current signing key.
pub open spec fn may_sign(k: KeyStatusView) -> bool {
    k.alive && !k.revoked && !k.cert_revoked && k.signing
}

/// The fingerprints of the keys that may sign, in their order.
pub open spec fn signing_keys(s: Seq<KeyStatusView>) -> Seq<Seq<u8>>
    decreases s.len(),
{
    if s.len() == 0 {
        Seq::empty()
    } else if may_sign(s.last()) {
        signing_keys(s.drop_last()).push(s.last().fingerprint)
    } else {
        signing_keys(s.drop_last())
    }
}

/// The fingerprints of those keys that may sign.
pub fn signers_among(s: &Vec<KeyStatus>) -> (v: Vec<Fingerprint>)
    ensures
        fingerprint_views(v@) == signing_keys(status_views(s@)),
{
    let mut v: Vec<Fingerprint> = Vec::new();
    let mut i: usize = 0;
    let ghost views = status_views(s@);
    assert(views.take(0) =~= Seq::empty());
    assert(fingerprint_views(v@) =~= Seq::empty());
    while i < s.len()
        invariant
            i <= s.len(),
            views == status_views(s@),
            fingerprint_views(v@) == signing_keys(views.take(i as int)),
        decreases s.len() - i,
    {
        let ghost before = fingerprint_views(v@);
        assert(views.take(i + 1).drop_last() =~= views.take(i as int));
        assert(views.take(i + 1).last() == s@[i as int]@);
        if s[i].alive && !s[i].revoked && !s[i].cert_revoked && s[i].signing {
            v.push(s[i].fingerprint.clone());
            assert(fingerprint_views(v@) =~= before.push(s@[i as int]@.fingerprint));
        }
        i += 1;
    }
    assert(views.take(i as int) =~= views);
    v
}

/// The fingerprints of the keys that may sign are exactly those of such keys.
pub proof fn signing_keys_may_sign(s: Seq<KeyStatusView>, f: Seq<u8>)
    ensures
        signing_keys(s).contains(f) <==> exists|i: int|
            0 <= i < s.len() && may_sign(#[trigger] s[i]) && s[i].fingerprint == f,
    decreases s.len(),
{
    if s.len() > 0 {
        let head = s.drop_last();
        let all = signing_keys(s);
        signing_keys_may_sign(head, f);
        if signing_keys(head).contains(f) {
            let k = signing_keys(head).index_of(f);
            assert(all[k] == f);
            let i = choose|i: int|
                0 <= i < head.len() && may_sign(#[trigger] head[i]) && head[i].fingerprint == f;
            assert(s[i] == head[i]);
        } else if may_sign(s.last()) && s.last().fingerprint == f {
            assert(all.last() == f);
            assert(may_sign(s[s.len() - 1]));
        } else {
            assert forall|i: int| 0 <= i < s.len() && may_sign(#[trigger] s[i]) implies s[i].fingerprint
                != f by {
                if i < head.len() {
                    assert(head[i] == s[i]);
                }
            }
            assert forall|k: int| 0 <= k < all.len() implies #[trigger] all[k] != f by {
                if k < signing_keys(head).len() {
                    assert(all[k] == signing_keys(head)[k]);
                }
            }
        }
    }
}

/// Whether `signers` are the keys that may sign by what is reported of the certificate
/// `data` at the time `now`, and are among its keys.
pub open spec fn are_signers(signers: Seq<Seq<u8>>, data: Seq<u8>, now: UnixTime) -> bool {
    &&& are_keys_of(data, signers)
    &&& exists|s: Seq<KeyStatusView>| #[trigger]
        reported(data, now.secs, now.nanos, s) && signers == signing_keys(s)
}

/// Why nothing can be said of the keys of the certificate `data`, if nothing can.
pub open spec fn reading_fault(data: Seq<u8>) -> Option<error::ErrorView> {
    match size_fault(data) {
        Some(e) => Some(e),
        None => match certificate_keys(data) {
            Err(message) => Some(parsing_error(message)),
            Ok(_) => None,
        },
    }
}

/// The fingerprints of the keys that `c` lets sign at the time `now`: those of which it is
/// reported that they are alive, not revoked and signing keys.
pub fn current_signers(c: &Cert, now: UnixTime) -> (r: Result<Vec<Fingerprint>, Error>)
    requires
        time::is_ordinary(now),
        now.nanos < 1_000_000_000,
    ensures
        match reading_fault(c.data@) {
            Some(e) => error::fails_with(r, e),
            None => r matches Ok(signers) && are_signers(fingerprint_views(signers@), c.data@, now),
        },
{
    match check_sizes(c.data.as_slice()) {
        Ok(()) => {},
        Err(e) => {
            return Err(e);
        },
    }
    let statuses = match key_statuses(c.data.as_slice(), now) {
        Ok(s) => s,
        Err(e) => {
            return Err(Error::Other(text::join2("parsing cert: ", e.as_str())));
        },
    };
    let signers = signers_among(&statuses);
    proof {
        let views = fingerprint_views(signers@);
        assert forall|i: int| 0 <= i < views.len() implies is_key_of(
            c.data@,
            #[trigger] views[i],
        ) by {
            assert(signing_keys(status_views(statuses@)).contains(views[i]));
            signing_keys_may_sign(status_views(statuses@), views[i]);
            let k = choose|k: int|
                0 <= k < statuses@.len() && may_sign(#[trigger] status_views(statuses@)[k])
                    && status_views(statuses@)[k].fingerprint == views[i];
            assert(is_key_of(c.data@, statuses@[k]@.fingerprint));
        }
    }
    Ok(signers)
}

// ---------------------------------------------------------------------------
// Writing certificates and signatures
// ---------------------------------------------------------------------------

/// The body of a signature packet.
#[derive(Debug)]
pub struct Signature {
    pub body: Vec<u8>,
}

/// The tag octet of a signature packet in the new format.
pub const SIGNATURE_TAG: u8 = 0xc2;

/// `CTB::new` with the tag for signatures, as `serialize` writes it: one octet, whose
/// two upper bits say that it is the tag of a packet in the new format, and whose
/// lower six bits are the number of the tag, 2.
#[verifier::external_body]
pub(crate) fn signature_tag() -> (out: Vec<u8>)
    ensures
        out@ == seq![SIGNATURE_TAG],
{
    CTB::new(Tag::Signature).to_vec().unwrap()
}

/// The length of a packet body in the new format: one octet below 192, two octets
/// below 8384, and otherwise 0xff and four octets.
pub open spec fn packet_length(n: u32) -> Seq<u8> {
    if n < 192 {
        seq![n as u8]
    } else if n < 8384 {
        seq![((n - 192) / 256 + 192) as u8, ((n - 192) % 256) as u8]
    } else {
        seq![
            0xffu8,
            (n / 0x100_0000) as u8,
            (n / 0x1_0000 % 256) as u8,
            (n / 0x100 % 256) as u8,
            (n % 256) as u8,
        ]
    }
}

/// `BodyLength::Full`, as `serialize` writes it.
#[verifier::external_body]
pub(crate) fn body_length(n: u32) -> (out: Vec<u8>)
    ensures
        out@ == packet_length(n),
{
    BodyLength::Full(n).to_vec().unwrap()
}

/// A signature as a packet: the tag, the length of the body, and the body.
pub open spec fn signature_packet(body: Seq<u8>) -> Seq<u8> {
    seq![SIGNATURE_TAG] + packet_length(body.len() as u32) + body
}

/// A signature as a packet without armor.
pub fn export_binary_signature(sig: &Signature) -> (r: Result<Vec<u8>, Error>)
    requires
        sig.body@.len() <= u32::MAX,
    ensures
        r matches Ok(out) && out@ == signature_packet(sig.body@),
{
    Ok(framed_signature(sig))
}

fn framed_signature(sig: &Signature) -> (out: Vec<u8>)
    requires
        sig.body@.len() <= u32::MAX,
    ensures
        out@ == signature_packet(sig.body@),
{
    let tag = signature_tag();
    let length = body_length(sig.body.len() as u32);
    let header = bytes::concat(tag.as_slice(), length.as_slice());
    bytes::concat(header.as_slice(), sig.body.as_slice())
}

/// Packets in the armor of a public key block, with the given comments in its header.
pub uninterp spec fn armored(comments: Seq<Seq<char>>, data: Seq<u8>) -> Seq<char>;

/// The mathematical content of a list of strings.
pub open spec fn string_views(strings: Seq<String>) -> Seq<Seq<char>> {
    strings.map_values(|s: String| s@)
}

/// The lines of an armor header, one `Comment` for each comment.
pub open spec fn comment_lines(comments: Seq<Seq<char>>) -> Seq<char>
    decreases comments.len(),
{
    if comments.len() == 0 {
        Seq::empty()
    } else {
        comment_lines(comments.drop_last()) + "Comment: "@ + comments.last() + "\n"@
    }
}

/// What the armor of a public key block starts with.
pub open spec fn armor_head(comments: Seq<Seq<char>>) -> Seq<char> {
    "-----BEGIN PGP PUBLIC KEY BLOCK-----\n"@ + comment_lines(comments) + "\n"@
}

/// What is left of a text without its armor, or what is said of a text that has none.
pub uninterp spec fn unarmored(data: Seq<u8>) -> Result<Seq<u8>, Seq<char>>;

/// `armor::Reader::from_bytes` in the tolerant mode, which is read to its end.  What it
/// yields is named.
#[verifier::external_body]
pub(crate) fn read_armor(data: &[u8]) -> (r: Result<Vec<u8>, String>)
    ensures
        match r {
            Ok(out) => unarmored(data@) == Ok::<Seq<u8>, Seq<char>>(out@),
            Err(e) => unarmored(data@) == Err::<Seq<u8>, Seq<char>>(e@),
        },
{
    let mut reader = armor::Reader::from_bytes(data, armor::ReaderMode::Tolerant(None));
    let mut out = Vec::new();
    match reader.read_to_end(&mut out) {
        Ok(_) => Ok(out),
        Err(e) => Err(e.to_string()),
    }
}

/// What is inside an armor of any kind.
pub fn remove_armor(data: &[u8]) -> (r: Result<Vec<u8>, Error>)
    ensures
        match unarmored(data@) {
            Ok(out) => r matches Ok(x) && x@ == out,
            Err(message) => error::fails_with(r, error::ErrorView::Other(message)),
        },
{
    match read_armor(data) {
        Ok(out) => Ok(out),
        Err(e) => Err(Error::Other(e)),
    }
}

/// Whether comments take one line each.
pub open spec fn single_lines(comments: Seq<Seq<char>>) -> bool {
    forall|i: int| 0 <= i < comments.len() ==> !(#[trigger] comments[i]).contains('\n')
}

/// The tag octet of a public key packet in the new format.
pub const PUBLIC_KEY_TAG: u8 = 0xc6;

/// Whether packets start with the header of a public key of an ordinary length.
pub open spec fn opens_with_key(data: Seq<u8>) -> bool {
    &&& data.len() > 0 && data[0] == PUBLIC_KEY_TAG
    &&& read_packet_length(data.skip(1)) matches Some((n, _)) && 6 < n < 0x10_0000
}

/// What is the same of data and of its armor `out`.  Where each comment is one line, the
/// data is found in the armor again; and where the data is a certificate that starts with
/// a public key, its packets are.
pub open spec fn armor_keeps(comments: Seq<Seq<char>>, data: Seq<u8>, out: Seq<char>) -> bool {
    single_lines(comments) ==> {
        &&& data.len() > 0 ==> unarmored(text::utf8(out)) == Ok::<Seq<u8>, Seq<char>>(data)
        &&& opens_with_key(data) && certificate_keys(data) is Ok ==> {
            &&& certificate_keys(text::utf8(out)) == certificate_keys(data)
            &&& packet_contents(text::utf8(out)) == packet_contents(data)
        }
    }
}

/// `armor::Writer::with_headers` for `Kind::PublicKey`, which is handed the data and
/// finalized.  Writing to memory does not fail.  The text is named; unless there is no
/// data, it starts with the line that opens a public key block, a `Comment` line for
/// each comment and an empty line, and with comments of one line each, `armor::Reader`
/// finds the data in it again.  `PacketParser::from_bytes` and `Cert::from_bytes` look for
/// an armor where data does not start with the header of a packet: a certificate that
/// starts with one has the same packets within the armor.
#[verifier::external_body]
pub(crate) fn armor_public_key_block(comments: &Vec<String>, data: &[u8]) -> (out: String)
    ensures
        out@ == armored(string_views(comments@), data@),
        data@.len() > 0 ==> armor_head(string_views(comments@)).is_prefix_of(out@),
        armor_keeps(string_views(comments@), data@, out@),
{
    let headers = comments.iter().map(|c| ("Comment", c.as_str()));
    let kind = armor::Kind::PublicKey;
    let mut writer = armor::Writer::with_headers(Vec::new(), kind, headers).unwrap();
    writer.write_all(data).unwrap();
    String::from_utf8(writer.finalize().unwrap()).unwrap()
}

/// The comment in the header of an armored revocation.
pub open spec fn revocation_comment() -> Seq<char> {
    "This is a revocation certificate"@
}

/// A single signature, which is a revocation, in the armor of a public key block.  The
/// comment follows the convention for revocation certificates.  Without the armor it is
/// the packet of [`export_binary_signature`] again.
pub fn export_armored_signature(sig: &Signature) -> (r: Result<String, Error>)
    requires
        sig.body@.len() <= u32::MAX,
    ensures
        r matches Ok(out) && out@ == armored(
            seq![revocation_comment()],
            signature_packet(sig.body@),
        ) && armor_head(seq![revocation_comment()]).is_prefix_of(out@) && unarmored(
            text::utf8(out@),
        ) == Ok::<Seq<u8>, Seq<char>>(signature_packet(sig.body@)),
{
    let packet = framed_signature(sig);
    let mut comments: Vec<String> = Vec::new();
    comments.push("This is a revocation certificate".to_owned());
    assert(string_views(comments@) =~= seq![revocation_comment()]);
    proof {
        reveal_strlit("This is a revocation certificate");
        assert(single_lines(string_views(comments@)));
    }
    Ok(armor_public_key_block(&comments, packet.as_slice()))
}

/// What is said of each packet of a stream that cannot be written again, in order; the
/// packets are those of [`packet_contents`].
pub uninterp spec fn packet_faults(data: Seq<u8>) -> Seq<Option<Seq<char>>>;

/// The mathematical content of a list of optional strings.
pub open spec fn fault_views(faults: Seq<Option<String>>) -> Seq<Option<Seq<char>>> {
    faults.map_values(
        |f: Option<String>|
            match f {
                Some(s) => Some(s@),
                None => None::<Seq<char>>,
            },
    )
}

/// The packets of a stream are read as by [`read_packets`], and `Marshal::serialize`
/// writes each of them again, which fails for a few packets that can be read.  What is
/// said then is named.
#[verifier::external_body]
pub(crate) fn rewrite_packets(data: &[u8]) -> (r: Vec<Option<String>>)
    ensures
        fault_views(r@) == packet_faults(data@),
{
    let mut all = Vec::new();
    let mut stream = PacketParser::from_bytes(data);
    while let Ok(PacketParserResult::Some(parser)) = stream {
        stream = parser.next().and_then(|(p, rest)| {
            all.push(p.serialize(&mut Vec::new()).err().map(|e| e.to_string()));
            match rest {
                PacketParserResult::EOF(end) => PacketParser::from_buffered_reader(end.into_reader()),
                more => Ok(more),
            }
        });
    }
    all
}

/// The first fault in a list.
pub open spec fn first_fault(faults: Seq<Option<Seq<char>>>) -> Option<Seq<char>>
    decreases faults.len(),
{
    if faults.len() == 0 {
        None
    } else if faults[0] is Some {
        faults[0]
    } else {
        first_fault(faults.drop_first())
    }
}

/// Why a stream of packets cannot be written again, if it cannot: what is said of the first
/// such packet.
pub open spec fn rewrite_fault(data: Seq<u8>) -> Option<Seq<char>> {
    first_fault(packet_faults(data))
}

fn check_rewrite(data: &[u8]) -> (r: Result<(), Error>)
    ensures
        match rewrite_fault(data@) {
            Some(message) => error::fails_with(r, error::ErrorView::Other(message)),
            None => r is Ok,
        },
{
    let faults = rewrite_packets(data);
    let ghost views = fault_views(faults@);
    let mut i: usize = 0;
    assert(views.skip(0) =~= views);
    while i < faults.len()
        invariant
            i <= faults.len(),
            views == fault_views(faults@),
            views == packet_faults(data@),
            first_fault(views) == first_fault(views.skip(i as int)),
        decreases faults.len() - i,
    {
        assert(views.skip(i as int).drop_first() =~= views.skip(i + 1));
        assert(views.skip(i as int)[0] == views[i as int]);
        if let Some(message) = &faults[i] {
            return Err(Error::Other(message.clone()));
        }
        i += 1;
    }
    Ok(())
}

/// Whether `packets` can be what is written for the certificate `data`.  Machines that
/// support different hash algorithms can write its signatures in different orders.
pub uninterp spec fn written(data: Seq<u8>, packets: Seq<u8>) -> bool;

/// `Cert::from_bytes` and `Cert::to_vec`: the packets of a certificate, without armor.
/// They start with its primary key, have the keys of the certificate in the same order,
/// and have its user IDs.  Every packet of a certificate is one of the stream that it was read from, so
/// that writing fails only if that stream cannot be written either.  Signatures are
/// moved to where the implementation can attribute them, which depends on the hash
/// algorithms of the machine, so that nothing else is claimed of the packets but that
/// they are written for this certificate.
#[verifier::external_body]
pub(crate) fn certificate_packets(data: &[u8]) -> (r: Result<Vec<u8>, String>)
    requires
        size_fault(data@) is None,
    ensures
        match r {
            Ok(p) => {
                &&& certificate_keys(data@) is Ok
                &&& written(data@, p@)
                &&& certificate_keys(p@) == certificate_keys(data@)
                &&& user_ids(p@) == user_ids(data@)
                &&& size_fault(p@) is None
                &&& opens_with_key(p@)
            },
            Err(e) => rewrite_fault(data@) is Some || certificate_keys(data@) == Err::<
                Seq<RawKeyView>,
                Seq<char>,
            >(e@),
        },
{
    let cert = sequoia_openpgp::Cert::from_bytes(data).map_err(|e| e.to_string())?;
    cert.to_vec().map_err(|e| e.to_string())
}

/// Why a certificate cannot be written, if it cannot.
pub open spec fn export_fault(data: Seq<u8>) -> Option<error::ErrorView> {
    match size_fault(data) {
        Some(e) => Some(e),
        None => match rewrite_fault(data) {
            Some(message) => Some(error::ErrorView::Other(message)),
            None => reading_fault(data),
        },
    }
}

/// The packets of a certificate without armor.  Read again, they have the keys and the user
/// IDs of the certificate.
///
/// In which order its signatures stand is not stated; see [`certificate_packets`].
pub fn export_binary_cert(cert: &Cert) -> (r: Result<Vec<u8>, Error>)
    ensures
        match export_fault(cert.data@) {
            Some(e) => error::fails_with(r, e),
            None => r matches Ok(out) && {
                &&& written(cert.data@, out@)
                &&& parsed_keys(out@) == parsed_keys(cert.data@)
                &&& certificate_keys(out@) == certificate_keys(cert.data@)
                &&& user_ids(out@) == user_ids(cert.data@)
                &&& size_fault(out@) is None
                &&& opens_with_key(out@)
            },
        },
{
    match check_sizes(cert.data.as_slice()) {
        Ok(()) => {},
        Err(e) => {
            return Err(e);
        },
    }
    match check_rewrite(cert.data.as_slice()) {
        Ok(()) => {},
        Err(e) => {
            return Err(e);
        },
    }
    match certificate_packets(cert.data.as_slice()) {
        Ok(packets) => Ok(packets),
        Err(e) => Err(Error::Other(text::join2("parsing cert: ", e.as_str()))),
    }
}

/// The upper-case hexadecimal notation of the first `n` bytes of a fingerprint, in groups
/// of four digits, with a wider gap in the middle.
pub open spec fn spaced_hex(f: Seq<u8>, n: nat) -> Seq<char>
    decreases n,
{
    if n == 0 {
        Seq::empty()
    } else {
        let i = (n - 1) as nat;
        let gap = if i > 0 && i % 2 == 0 {
            seq![' ']
        } else {
            Seq::empty()
        };
        let middle = if i > 0 && 2 * i == f.len() {
            seq![' ']
        } else {
            Seq::empty()
        };
        spaced_hex(f, i) + gap + middle + openpgp::upper_hex(seq![f[i as int]])
    }
}

/// Whether the first of the comments is the fingerprint of the primary key of the
/// certificate `data`.
pub open spec fn names_primary(comments: Seq<Seq<char>>, data: Seq<u8>) -> bool {
    comments.len() > 0 && (certificate_keys(data) matches Ok(keys) ==> (packet_fingerprint(
        keys[0].body,
    ) matches Ok(f) ==> comments[0] == spaced_hex(f, f.len())))
}

/// Whether `comments` can be what describes the certificate `data` at some time.
pub uninterp spec fn described(data: Seq<u8>, comments: Seq<Seq<char>>) -> bool;

/// `Cert::from_bytes` and `Cert::armor_headers`: the comments in the header of an
/// armored certificate, which are its fingerprint and those user IDs that are valid at
/// the present time.  There are such comments for every certificate that can be read, the
/// fingerprint is the first, and none has a line break in it.  Which user IDs follow
/// depends on the time, so that nothing else is claimed of them but that they describe
/// this certificate.
#[verifier::external_body]
pub(crate) fn certificate_comments(data: &[u8]) -> (r: Result<Vec<String>, String>)
    requires
        size_fault(data@) is None,
    ensures
        match r {
            Ok(comments) => {
                &&& certificate_keys(data@) is Ok
                &&& described(data@, string_views(comments@))
                &&& single_lines(string_views(comments@))
                &&& names_primary(string_views(comments@), data@)
            },
            Err(e) => certificate_keys(data@) == Err::<Seq<RawKeyView>, Seq<char>>(e@),
        },
{
    let cert = sequoia_openpgp::Cert::from_bytes(data).map_err(|e| e.to_string())?;
    Ok(cert.armor_headers())
}

/// The packets of a certificate in the armor of a public key block with the given
/// comments.  Where each comment is one line, the armor can be removed again, and the
/// certificate has the same keys and user IDs in it.
pub fn armor_cert(packets: &Vec<u8>, comments: &Vec<String>) -> (out: String)
    ensures
        out@ == armored(string_views(comments@), packets@),
        packets@.len() > 0 ==> armor_head(string_views(comments@)).is_prefix_of(out@),
        packets@.len() > 0 && single_lines(string_views(comments@)) ==> unarmored(text::utf8(out@))
            == Ok::<Seq<u8>, Seq<char>>(packets@),
        opens_with_key(packets@) && single_lines(string_views(comments@)) && reading_fault(
            packets@,
        ) is None ==> parsed_keys(text::utf8(out@)) == parsed_keys(packets@) && user_ids(
            text::utf8(out@),
        ) == user_ids(packets@),
{
    armor_public_key_block(comments, packets.as_slice())
}

/// Whether `out` is what is written for the certificate `data`, with its keys and user IDs,
/// in the armor of a public key block with comments that describe it, the first of which
/// is its fingerprint.
pub open spec fn is_armored_cert(out: Seq<char>, data: Seq<u8>) -> bool {
    exists|comments: Seq<Seq<char>>, packets: Seq<u8>| #[trigger]
        armored(comments, packets) == out && armor_head(comments).is_prefix_of(out)
            && described(data, comments) && names_primary(comments, data) && written(data, packets)
            && certificate_keys(packets) == certificate_keys(data)
            && user_ids(packets) == user_ids(data) && opens_with_key(packets)
            && unarmored(text::utf8(out)) == Ok::<Seq<u8>, Seq<char>>(packets)
}

/// A certificate in the armor of a public key block, with comments that describe it.
/// Read again, it has the keys and the user IDs of the certificate.
///
/// Which comments follow the first one, and in which order the signatures stand, is not
/// stated; see [`certificate_comments`] and [`certificate_packets`].
pub fn export_armored_cert(cert: &Cert) -> (r: Result<String, Error>)
    ensures
        match export_fault(cert.data@) {
            Some(e) => error::fails_with(r, e),
            None => r matches Ok(out) && {
                &&& parsed_keys(text::utf8(out@)) == parsed_keys(cert.data@)
                &&& user_ids(text::utf8(out@)) == user_ids(cert.data@)
                &&& is_armored_cert(out@, cert.data@)
            },
        },
{
    let packets = match export_binary_cert(cert) {
        Ok(packets) => packets,
        Err(e) => {
            return Err(e);
        },
    };
    match certificate_comments(cert.data.as_slice()) {
        Ok(comments) => {
            let out = armor_cert(&packets, &comments);
            assert(armored(string_views(comments@), packets@) == out@);
            Ok(out)
        },
        Err(e) => Err(Error::Other(e)),
    }
}

// ---------------------------------------------------------------------------
// Algorithms
// ---------------------------------------------------------------------------

/// The hash algorithm whose strength matches a key: each NIST curve has its own, and
/// RSA keys go with SHA-512.
pub open spec fn matching_hash(key: openpgp::KeyView) -> HashAlgorithm {
    match key.mpis {
        openpgp::PublicKeyView::ECDSA { curve, q } => match curve {
            openpgp::CurveView::NistP256 => HashAlgorithm::SHA256,
            openpgp::CurveView::NistP384 => HashAlgorithm::SHA384,
            openpgp::CurveView::NistP521 => HashAlgorithm::SHA512,
            _ => HashAlgorithm::SHA384,
        },
        _ => HashAlgorithm::SHA512,
    }
}

/// The hash algorithm that signatures by `public` use.
pub fn preferred_hash_for(public: &Key) -> (h: HashAlgorithm)
    ensures
        h == matching_hash(public@),
{
    match &public.mpis {
        PublicKey::ECDSA { curve, .. } => match curve {
            Curve::NistP256 => HashAlgorithm::SHA256,
            Curve::NistP384 => HashAlgorithm::SHA384,
            Curve::NistP521 => HashAlgorithm::SHA512,
            _ => HashAlgorithm::SHA384,
        },
        _ => HashAlgorithm::SHA512,
    }
}

/// The hash algorithms that a certificate prefers, best first.
pub fn preferred_hashes() -> (v: Vec<HashAlgorithm>)
    ensures
        v@ == seq![HashAlgorithm::SHA512, HashAlgorithm::SHA384, HashAlgorithm::SHA256],
{
    vec![HashAlgorithm::SHA512, HashAlgorithm::SHA384, HashAlgorithm::SHA256]
}

/// The symmetric algorithms that a certificate prefers, best first.
pub fn preferred_symmetric() -> (v: Vec<SymmetricAlgorithm>)
    ensures
        v@ == seq![SymmetricAlgorithm::AES256, SymmetricAlgorithm::AES128],
{
    vec![SymmetricAlgorithm::AES256, SymmetricAlgorithm::AES128]
}

// ---------------------------------------------------------------------------
// Laws
// ---------------------------------------------------------------------------

/// The length that stands at the start of `b` in the new packet format, and how many
/// octets state it.
pub open spec fn read_packet_length(b: Seq<u8>) -> Option<(nat, nat)> {
    if b.len() >= 1 && b[0] < 192 {
        Some((b[0] as nat, 1))
    } else if b.len() >= 2 && 192 <= b[0] < 224 {
        Some((((b[0] - 192) * 256 + b[1] + 192) as nat, 2))
    } else if b.len() >= 5 && b[0] == 255 {
        Some((bytes::be_value(b.subrange(1, 5)), 5))
    } else {
        None
    }
}

/// An exported signature is a framed packet: its first octet has the upper bit set,
/// and the length behind that octet leads exactly to its end.
pub proof fn signature_is_framed(body: Seq<u8>)
    requires
        body.len() <= u32::MAX,
    ensures
        ({
            let packet = signature_packet(body);
            &&& packet[0] >= 0x80
            &&& packet[0] == 0xc0 + 2
            &&& read_packet_length(packet.skip(1)) matches Some((len, octets)) && len == body.len()
                && packet.skip((1 + octets) as int) == body
        }),
{
    let n = body.len() as u32;
    let packet = signature_packet(body);
    let rest = packet.skip(1);
    let length = packet_length(n);
    assert(rest =~= length + body);
    assert(packet.skip((1 + length.len()) as int) =~= body);
    if n < 192 {
        assert(rest[0] == n as u8);
    } else if n < 8384 {
        assert(rest[0] == length[0] && rest[1] == length[1]);
        assert(((n - 192) / 256) * 256 + (n - 192) % 256 == n - 192);
    } else {
        let field = rest.subrange(1, 5);
        assert(field[0] == length[1] && field[1] == length[2] && field[2] == length[3] && field[3]
            == length[4]);
        assert(field.drop_last().drop_last().drop_last().drop_last() =~= Seq::empty());
        reveal_with_fuel(bytes::be_value, 5);
        assert(n / 0x100_0000 * 0x100_0000 + (n / 0x1_0000 % 256) * 0x1_0000 + (n / 0x100 % 256)
            * 0x100 + n % 256 == n);
        assert(bytes::be_value(field) == n);
    }
}

/// Two readings of the same keys differ at most in the bytes: a certificate that was
/// exported and read again has its keys.
pub proof fn exported_keys_are_read_back(c: Cert, again: Cert)
    requires
        is_read(c),
        is_read(again),
        parsed_keys(again.data@) == parsed_keys(c.data@),
    ensures
        again.primary@ == c.primary@,
        key_views(again.subkeys@) == key_views(c.subkeys@),
{
    let all = seq![c.primary@] + key_views(c.subkeys@);
    let others = seq![again.primary@] + key_views(again.subkeys@);
    assert(all[0] == c.primary@ && others[0] == again.primary@);
    assert(all.skip(1) =~= key_views(c.subkeys@));
    assert(others.skip(1) =~= key_views(again.subkeys@));
}

proof fn keys_have_packet_fingerprints(raw: Seq<RawKeyView>)
    requires
        cert_keys_of(raw) is Ok,
    ensures
        cert_keys_of(raw)->Ok_0.len() == raw.len(),
        forall|i: int|
            0 <= i < raw.len() ==> packet_fingerprint((#[trigger] raw[i]).body) == Ok::<
                Seq<u8>,
                Seq<char>,
            >(cert_keys_of(raw)->Ok_0[i].fingerprint),
    decreases raw.len(),
{
    if raw.len() > 0 {
        let head = raw.drop_last();
        keys_have_packet_fingerprints(head);
        assert forall|i: int| 0 <= i < raw.len() implies packet_fingerprint(
            (#[trigger] raw[i]).body,
        ) == Ok::<Seq<u8>, Seq<char>>(cert_keys_of(raw)->Ok_0[i].fingerprint) by {
            if i < head.len() {
                assert(head[i] == raw[i]);
            }
        }
    }
}

/// The fingerprints of the keys of a certificate are those of the keys in its bytes.
pub proof fn keys_are_in_the_bytes(c: Cert, f: Seq<u8>)
    requires
        is_read(c),
    ensures
        is_key_of(c.data@, f) <==> c.primary@.fingerprint == f || exists|i: int|
            0 <= i < c.subkeys@.len() && (#[trigger] c.subkeys@[i])@.fingerprint == f,
{
    let raw = certificate_keys(c.data@)->Ok_0;
    let keys = cert_keys_of(raw)->Ok_0;
    keys_have_packet_fingerprints(raw);
    let all = seq![c.primary@] + key_views(c.subkeys@);
    assert(all[0] == c.primary@);
    assert forall|i: int| 0 <= i < c.subkeys@.len() implies (#[trigger] c.subkeys@[i])@ == all[i
        + 1] by {}
    if is_key_of(c.data@, f) {
        let i = choose|i: int|
            0 <= i < raw.len() && packet_fingerprint((#[trigger] raw[i]).body) == Ok::<
                Seq<u8>,
                Seq<char>,
            >(f);
        assert(keys[i].fingerprint == f);
        if i > 0 {
            assert(c.subkeys@[i - 1]@ == keys[i]);
        }
    }
    if c.primary@.fingerprint == f {
        assert(packet_fingerprint(raw[0].body) == Ok::<Seq<u8>, Seq<char>>(f));
    }
    if exists|i: int| 0 <= i < c.subkeys@.len() && (#[trigger] c.subkeys@[i])@.fingerprint == f {
        let i = choose|i: int|
            0 <= i < c.subkeys@.len() && (#[trigger] c.subkeys@[i])@.fingerprint == f;
        assert(packet_fingerprint(raw[i + 1].body) == Ok::<Seq<u8>, Seq<char>>(f));
    }
}

/// Each NIST curve goes with the hash algorithm of its own security level, whose
/// digest is no longer than a coordinate.
pub proof fn curves_and_hashes_match(curve: openpgp::CurveView, q: Seq<u8>, t: u32)
    requires
        openpgp::coordinate_size(curve) is Some,
    ensures
        ({
            let key = openpgp::KeyView {
                creation_time: t,
                pk_algo: openpgp::PublicKeyAlgorithm::ECDSA,
                mpis: openpgp::PublicKeyView::ECDSA { curve, q },
            };
            &&& der::digest_info_header(matching_hash(key)) is Some
            &&& der::digest_size(matching_hash(key)) <= openpgp::coordinate_size(curve)->0
        }),
{
}

/// A key is RSA under the algorithms 1, 2 and 3, with its exponent before its modulus, and
/// ECDSA under 19, with its curve before its point; any other key is neither.
pub proof fn materials_are_as_numbered(raw: RawKeyView)
    ensures
        material_of(raw) is RSA <==> (raw.algo == 1 || raw.algo == 2 || raw.algo == 3)
            && raw.numbers.len() == 2,
        material_of(raw) is ECDSA <==> raw.algo == 19 && raw.numbers.len() == 2,
        material_of(raw) matches openpgp::PublicKeyView::RSA { e, n } ==> e == raw.numbers[0] && n
            == raw.numbers[1],
        material_of(raw) matches openpgp::PublicKeyView::ECDSA { curve, q } ==> q == raw.numbers[1]
            && (curve == openpgp::CurveView::NistP256 <==> raw.numbers[0] == der::encoded_oid(
            seq![1nat, 2, 840, 10045, 3, 1, 7],
        )) && (curve == openpgp::CurveView::NistP384 <==> raw.numbers[0] == der::encoded_oid(
            seq![1nat, 3, 132, 0, 34],
        )) && (curve == openpgp::CurveView::NistP521 <==> raw.numbers[0] == der::encoded_oid(
            seq![1nat, 3, 132, 0, 35],
        )) && (curve matches openpgp::CurveView::Unknown(oid) ==> oid == raw.numbers[0]),
{
    if raw.numbers.len() == 2 {
        der::identifiers_name_the_curves(raw.numbers[0]);
    }
}

/// A key that is read has the version and the creation time of its packet, the algorithm
/// and the material that are reported, and the fingerprint of its packet.
pub proof fn keys_are_as_in_their_packets(raw: RawKeyView)
    ensures
        cert_key_of(raw) is Ok <==> 6 <= raw.body.len() <= (if raw.body[0] == 6 {
            0xffff_ffffnat
        } else {
            0xffff
        }) && packet_fingerprint(raw.body) is Ok,
        cert_key_of(raw) matches Ok(k) ==> {
            &&& k.version == raw.body[0]
            &&& k.algo == raw.algo
            &&& k.creation_time == raw.body[1] * 0x100_0000 + raw.body[2] * 0x1_0000 + raw.body[3]
                * 0x100 + raw.body[4]
            &&& packet_fingerprint(raw.body) == Ok::<Seq<u8>, Seq<char>>(k.fingerprint)
            &&& k.material == material_of(raw)
        },
{
    if raw.body.len() >= 6 {
        let field = raw.body.subrange(1, 5);
        assert(field[0] == raw.body[1] && field[1] == raw.body[2] && field[2] == raw.body[3]
            && field[3] == raw.body[4]);
        assert(field.drop_last().drop_last().drop_last().drop_last() =~= Seq::empty());
        reveal_with_fuel(bytes::be_value, 5);
    }
}

/// The keys of a certificate are those that are reported, all of them and in their order;
/// they are refused exactly if one of them cannot be read.
pub proof fn every_key_is_read(raw: Seq<RawKeyView>)
    ensures
        cert_keys_of(raw) matches Ok(keys) ==> keys.len() == raw.len() && forall|i: int|
            0 <= i < raw.len() ==> cert_key_of(#[trigger] raw[i]) == Ok::<
                CertKeyView,
                error::ErrorView,
            >(keys[i]),
        cert_keys_of(raw) is Ok <==> forall|i: int|
            0 <= i < raw.len() ==> cert_key_of(#[trigger] raw[i]) is Ok,
    decreases raw.len(),
{
    if raw.len() > 0 {
        let head = raw.drop_last();
        every_key_is_read(head);
        assert(raw[raw.len() - 1] == raw.last());
        assert forall|i: int| 0 <= i < head.len() implies head[i] == #[trigger] raw[i] by {}
        if cert_keys_of(head) is Err {
            let i = choose|i: int| 0 <= i < head.len() && cert_key_of(#[trigger] head[i]) is Err;
            assert(cert_key_of(raw[i]) is Err);
        }
    }
}

/// A certificate holds the bytes that it was read from; its primary key is the first of its
/// keys, and its subkeys are the others, in order.
pub proof fn the_first_key_is_primary(c: Cert, data: Seq<u8>, keys: Seq<CertKeyView>)
    requires
        is_cert(c, data, keys),
    ensures
        c.data@ == data,
        keys.len() == 1 + c.subkeys@.len(),
        c.primary@ == keys[0],
        forall|i: int| 0 <= i < c.subkeys@.len() ==> (#[trigger] c.subkeys@[i])@ == keys[i + 1],
{
    let all = seq![c.primary@] + key_views(c.subkeys@);
    assert(all[0] == c.primary@);
    assert forall|i: int| 0 <= i < c.subkeys@.len() implies (#[trigger] c.subkeys@[i])@ == keys[i
        + 1] by {
        assert(all[i + 1] == c.subkeys@[i]@);
    }
}

/// A certificate is read exactly if its sizes are supported, it is one, and each of its
/// keys can be read.
pub proof fn certificates_are_read_unless_refused(data: Seq<u8>)
    ensures
        parsed_keys(data) is Ok <==> size_fault(data) is None && (certificate_keys(data) matches Ok(
            raw,
        ) && forall|i: int| 0 <= i < raw.len() ==> cert_key_of(#[trigger] raw[i]) is Ok),
        reading_fault(data) is None <==> size_fault(data) is None && certificate_keys(data) is Ok,
        export_fault(data) is None <==> size_fault(data) is None && rewrite_fault(data) is None
            && certificate_keys(data) is Ok,
{
    if let Ok(raw) = certificate_keys(data) {
        every_key_is_read(raw);
    }
}

/// A key may sign exactly if it is alive and made for signing, and neither it nor the
/// certificate is revoked.
pub proof fn signers_are_alive_and_not_revoked(k: KeyStatusView)
    ensures
        may_sign(k) ==> k.alive && k.signing && !k.revoked && !k.cert_revoked,
        k.alive && k.signing && !k.revoked && !k.cert_revoked ==> may_sign(k),
{
}

/// The keys that may sign keep their order: one more key comes behind the others if it may
/// sign, and changes nothing if it may not.
pub proof fn signers_keep_their_order(a: Seq<KeyStatusView>, k: KeyStatusView)
    ensures
        k.alive && k.signing && !k.revoked && !k.cert_revoked ==> signing_keys(a.push(k))
            == signing_keys(a).push(k.fingerprint),
        !(k.alive && k.signing && !k.revoked && !k.cert_revoked) ==> signing_keys(a.push(k))
            == signing_keys(a),
{
    assert(a.push(k).drop_last() =~= a);
}

/// Keys are of a supported size exactly if none is too large for a fingerprint: a length of
/// two bytes covers the six bytes before the material of a key, and one of four bytes the
/// ten before that of a version 6 key.
pub proof fn sizes_are_those_of_fingerprints(packets: Seq<PacketContentView>)
    ensures
        oversized(packets) is None <==> forall|i: int|
            0 <= i < packets.len() ==> ((#[trigger] packets[i]).key matches Some((version, n)) ==> if version
                == 6 {
                n + 10 <= 0xffff_ffff
            } else {
                n + 6 <= 0xffff
            }),
    decreases packets.len(),
{
    if packets.len() > 0 {
        let rest = packets.drop_first();
        sizes_are_those_of_fingerprints(rest);
        assert forall|i: int| 0 <= i < rest.len() implies #[trigger] rest[i] == packets[i + 1] by {}
        if oversized(rest) is Some {
            let i = choose|i: int|
                0 <= i < rest.len() && !((#[trigger] rest[i]).key matches Some((version, n)) ==> if version
                    == 6 {
                    n + 10 <= 0xffff_ffff
                } else {
                    n + 6 <= 0xffff
                });
            assert(packets[i + 1] == rest[i]);
        } else if oversized(packets) is None {
            assert forall|i: int| 0 <= i < packets.len() implies ((#[trigger] packets[i]).key matches Some(
                (version, n),
            ) ==> if version == 6 {
                n + 10 <= 0xffff_ffff
            } else {
                n + 6 <= 0xffff
            }) by {
                if i > 0 {
                    assert(rest[i - 1] == packets[i]);
                }
            }
        }
    }
}

/// The fault that is reported is the first one, and none is exactly if there is none.
pub proof fn the_first_fault_is_reported(faults: Seq<Option<Seq<char>>>, i: int)
    requires
        0 <= i <= faults.len(),
        forall|k: int| 0 <= k < i ==> (#[trigger] faults[k]) is None,
    ensures
        i < faults.len() && faults[i] is Some ==> first_fault(faults) == faults[i],
        i == faults.len() ==> first_fault(faults) is None,
    decreases faults.len(),
{
    if faults.len() > 0 && i > 0 {
        let rest = faults.drop_first();
        assert(faults[0] is None);
        assert forall|k: int| 0 <= k < i - 1 implies (#[trigger] rest[k]) is None by {
            assert(rest[k] == faults[k + 1]);
        }
        the_first_fault_is_reported(rest, i - 1);
    }
}

/// The armor of a revocation says what it is.
pub proof fn revocations_are_marked()
    ensures
        revocation_comment() == "This is a revocation certificate"@,
{
}

} // verus!
