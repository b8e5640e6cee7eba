//! Signing with a key on a token: its public material, the input of the signing
//! mechanism and the form of the signature.

use vstd::prelude::*;

use crate::bytes;
use crate::der;
use crate::error;
use crate::error::Error;
use crate::openpgp;
use crate::openpgp::{Curve, HashAlgorithm, Key, PublicKey, PublicKeyAlgorithm, UnixTime};
use crate::text;
use crate::token;
use crate::token::{Attribute, AttributeType, KeyType, ObjectClass};

verus! {

// ---------------------------------------------------------------------------
// The public key object that belongs to a private key
// ---------------------------------------------------------------------------

/// The template that finds the public key object of a private key with the given
/// `CKA_ID` and `CKA_LABEL`: both are matched where both are set, and otherwise the
/// one that is.  An empty value counts as not set.
pub open spec fn companion_template(attrs: Seq<token::AttributeView>) -> Option<
    Seq<token::AttributeView>,
> {
    let class = token::AttributeView::Class(ObjectClass::PublicKey);
    match (
        token::last_value(attrs, AttributeType::Id, true),
        token::last_value(attrs, AttributeType::Label, true),
    ) {
        (Some(i), Some(l)) => Some(
            seq![
                class,
                token::AttributeView::Bytes(AttributeType::Id, i),
                token::AttributeView::Bytes(AttributeType::Label, l),
            ],
        ),
        (Some(i), None) => Some(seq![class, token::AttributeView::Bytes(AttributeType::Id, i)]),
        (None, Some(l)) => Some(seq![class, token::AttributeView::Bytes(AttributeType::Label, l)]),
        (None, None) => None,
    }
}

/// What is said of a private key with neither an identifier nor a label.
pub open spec fn no_companion_attributes() -> error::ErrorView {
    error::ErrorView::UnsupportedKeyType(
        "private key has neither CKA_ID nor CKA_LABEL set; cannot locate companion public key unambiguously"@,
    )
}

/// The template that finds the public key object of the private key with the
/// attributes `attrs`.
///
/// The point of an elliptic-curve key is stored with the public key object only.
/// The two objects of a pair share their `CKA_ID`, and usually their `CKA_LABEL`.
pub fn find_companion_public_key(attrs: &Vec<Attribute>) -> (r: Result<Vec<Attribute>, Error>)
    ensures
        match companion_template(token::attribute_views(attrs@)) {
            Some(template) => r matches Ok(t) && token::attribute_views(t@) == template,
            None => error::fails_with(r, no_companion_attributes()),
        },
{
    let id = token::find_last(attrs, AttributeType::Id, true);
    let label = token::find_last(attrs, AttributeType::Label, true);
    let mut template: Vec<Attribute> = Vec::new();
    template.push(Attribute::Class(ObjectClass::PublicKey));
    match (id, label) {
        (Some(i), Some(l)) => {
            template.push(Attribute::Bytes(AttributeType::Id, i));
            template.push(Attribute::Bytes(AttributeType::Label, l));
        },
        (Some(i), None) => {
            template.push(Attribute::Bytes(AttributeType::Id, i));
        },
        (None, Some(l)) => {
            template.push(Attribute::Bytes(AttributeType::Label, l));
        },
        (None, None) => {
            return Err(
                Error::UnsupportedKeyType(
                    "private key has neither CKA_ID nor CKA_LABEL set; cannot locate companion public key unambiguously".to_owned(),
                ),
            );
        },
    }
    assert(token::attribute_views(template@) =~= companion_template(
        token::attribute_views(attrs@),
    )->0);
    Ok(template)
}

/// The public key object among those that a search found, which must be the only
/// one: picking one of several could pair a private key with another's public key.
pub open spec fn only_companion(candidates: Seq<u64>) -> Result<u64, Seq<char>> {
    if candidates.len() == 1 {
        Ok(candidates[0])
    } else if candidates.len() == 0 {
        Err("no CKO_PUBLIC_KEY object matched the private key's CKA_ID/CKA_LABEL"@)
    } else {
        Err(
            "ambiguous companion public-key lookup: "@ + text::decimal_text(candidates.len())
                + " CKO_PUBLIC_KEY objects matched the private key's CKA_ID/CKA_LABEL — refusing to pick one to avoid binding the wrong public material"@,
        )
    }
}

/// The one public key object among `candidates`.
pub fn resolve_companion(candidates: &Vec<u64>) -> (r: Result<u64, Error>)
    ensures
        match only_companion(candidates@) {
            Ok(handle) => r matches Ok(h) && h == handle,
            Err(message) => error::fails_with(r, error::ErrorView::UnsupportedKeyType(message)),
        },
{
    if candidates.len() == 1 {
        Ok(candidates[0])
    } else if candidates.len() == 0 {
        Err(
            Error::UnsupportedKeyType(
                "no CKO_PUBLIC_KEY object matched the private key's CKA_ID/CKA_LABEL".to_owned(),
            ),
        )
    } else {
        Err(
            Error::UnsupportedKeyType(
                text::join3(
                    "ambiguous companion public-key lookup: ",
                    text::decimal(candidates.len() as u64).as_str(),
                    " CKO_PUBLIC_KEY objects matched the private key's CKA_ID/CKA_LABEL — refusing to pick one to avoid binding the wrong public material",
                ),
            ),
        )
    }
}

// ---------------------------------------------------------------------------
// Public key material
// ---------------------------------------------------------------------------

/// The smallest RSA modulus that is accepted, in bits.
pub const MIN_RSA_BITS: usize = 2048;

/// Whether the bits of every attribute value can be counted in a machine word.
pub open spec fn countable(attrs: Seq<token::AttributeView>) -> bool {
    forall|i: int|
        0 <= i < attrs.len() ==> (#[trigger] attrs[i] matches token::AttributeView::Bytes(_, v)
            ==> v.len() * 8 <= usize::MAX)
}

/// An error that says something is wrong with the key on the token.
pub open spec fn unsupported(message: Seq<char>) -> error::ErrorView {
    error::ErrorView::UnsupportedKeyType(message)
}

/// The RSA key whose modulus and public exponent the attributes give, stamped with
/// the epoch.  The modulus has at least [`MIN_RSA_BITS`] bits.
pub open spec fn rsa_public(attrs: Seq<token::AttributeView>) -> Result<
    openpgp::KeyView,
    error::ErrorView,
> {
    match token::last_value(attrs, AttributeType::Modulus, false) {
        None => Err(unsupported("RSA key missing modulus"@)),
        Some(modulus) => {
            let bits = bytes::bit_length(bytes::be_value(modulus));
            if bits < MIN_RSA_BITS {
                Err(
                    unsupported(
                        "RSA modulus is "@ + text::decimal_text(bits)
                            + " bits; minimum supported is "@ + text::decimal_text(2048),
                    ),
                )
            } else {
                match token::last_value(attrs, AttributeType::PublicExponent, false) {
                    None => Err(unsupported("RSA key missing exponent"@)),
                    Some(exponent) => Ok(
                        openpgp::KeyView {
                            creation_time: 0,
                            pk_algo: PublicKeyAlgorithm::RSAEncryptSign,
                            mpis: openpgp::PublicKeyView::RSA {
                                e: openpgp::stripped(exponent),
                                n: openpgp::stripped(modulus),
                            },
                        },
                    ),
                }
            }
        },
    }
}

/// Reads the public material of an RSA key from its attributes.
pub fn read_rsa_public(attrs: &Vec<Attribute>) -> (r: Result<Key, Error>)
    requires
        countable(token::attribute_views(attrs@)),
    ensures
        match rsa_public(token::attribute_views(attrs@)) {
            Ok(key) => r matches Ok(k) && k@ == key,
            Err(e) => error::fails_with(r, e),
        },
{
    let modulus = match token::find_last(attrs, AttributeType::Modulus, false) {
        Some(v) => v,
        None => {
            return Err(Error::UnsupportedKeyType("RSA key missing modulus".to_owned()));
        },
    };
    proof {
        let i = choose|i: int|
            0 <= i < attrs@.len() && (#[trigger] attrs@[i])@ == token::AttributeView::Bytes(
                AttributeType::Modulus,
                modulus@,
            );
        assert(token::attribute_views(attrs@)[i] == attrs@[i]@);
    }
    let bits: usize = bytes::rsa_modulus_bit_length(modulus.as_slice());
    if bits < MIN_RSA_BITS {
        let mut message = text::join3(
            "RSA modulus is ",
            text::decimal(bits as u64).as_str(),
            " bits; minimum supported is ",
        );
        message.append(text::decimal(2048).as_str());
        return Err(Error::UnsupportedKeyType(message));
    }
    let n = openpgp::new_mpi(modulus.as_slice());
    let e = match token::find_last(attrs, AttributeType::PublicExponent, false) {
        Some(v) => openpgp::new_mpi(v.as_slice()),
        None => {
            return Err(Error::UnsupportedKeyType("RSA key missing exponent".to_owned()));
        },
    };
    Key::new(
        UnixTime::epoch(),
        PublicKeyAlgorithm::RSAEncryptSign,
        PublicKey::RSA { e, n },
    )
}

/// What is said of the first byte of a point that is not 0x04.
pub open spec fn point_form(first: u8) -> Seq<char> {
    if first == 0 {
        "infinity"@
    } else if first == 2 || first == 3 {
        "compressed"@
    } else {
        "unknown"@
    }
}

/// What is wrong with `point` as an uncompressed point on `curve`, if anything.
///
/// An uncompressed point is the byte 0x04 and the two coordinates.  Compressed
/// points, the point at infinity and points of another length are refused.
pub open spec fn point_fault(curve: openpgp::CurveView, point: Seq<u8>) -> Option<Seq<char>> {
    match openpgp::coordinate_size(curve) {
        None => Some(
            "EC point validation: curve "@ + openpgp::curve_text(curve) + " is not supported"@,
        ),
        Some(size) => if point.len() == 0 {
            Some("CKA_EC_POINT body is empty after DER OCTET STRING unwrapping"@)
        } else if point[0] != 0x04 {
            Some(
                "CKA_EC_POINT must be an uncompressed point (first byte 0x04); got 0x"@
                    + text::hex_text(point[0] as nat, 2) + " ("@ + point_form(point[0])
                    + " point or malformed)"@,
            )
        } else if point.len() != 1 + 2 * size {
            Some(
                "CKA_EC_POINT length mismatch for curve "@ + openpgp::curve_text(curve) + ": got "@
                    + text::decimal_text(point.len()) + " bytes, expected "@ + text::decimal_text(
                    1 + 2 * size,
                ) + " (1 byte 0x04 prefix + 2 × "@ + text::decimal_text(size)
                    + "-byte coordinate)"@,
            )
        } else {
            None
        },
    }
}

/// Whether `point` is an uncompressed point on `curve`, as far as its form goes.
pub fn validate_uncompressed_ec_point(curve: &Curve, point: &[u8]) -> (r: Result<(), Error>)
    ensures
        match point_fault(curve@, point@) {
            None => r is Ok,
            Some(message) => error::fails_with(r, unsupported(message)),
        },
{
    let size: usize = match curve.coordinate_size() {
        Some(size) => size,
        None => {
            return Err(
                Error::UnsupportedKeyType(
                    text::join3(
                        "EC point validation: curve ",
                        curve.text().as_str(),
                        " is not supported",
                    ),
                ),
            );
        },
    };
    if point.len() == 0 {
        return Err(
            Error::UnsupportedKeyType(
                "CKA_EC_POINT body is empty after DER OCTET STRING unwrapping".to_owned(),
            ),
        );
    }
    let first: u8 = point[0];
    if first != 0x04 {
        let form = if first == 0 {
            "infinity"
        } else if first == 2 || first == 3 {
            "compressed"
        } else {
            "unknown"
        };
        let mut message = text::join3(
            "CKA_EC_POINT must be an uncompressed point (first byte 0x04); got 0x",
            text::hex_digits(first as u64, 2).as_str(),
            " (",
        );
        message.append(form);
        message.append(" point or malformed)");
        return Err(Error::UnsupportedKeyType(message));
    }
    if point.len() != 1 + 2 * size {
        let mut message = text::join3(
            "CKA_EC_POINT length mismatch for curve ",
            curve.text().as_str(),
            ": got ",
        );
        message.append(text::decimal(point.len() as u64).as_str());
        message.append(" bytes, expected ");
        message.append(text::decimal((1 + 2 * size) as u64).as_str());
        message.append(" (1 byte 0x04 prefix + 2 × ");
        message.append(text::decimal(size as u64).as_str());
        message.append("-byte coordinate)");
        return Err(Error::UnsupportedKeyType(message));
    }
    Ok(())
}

/// The elliptic-curve key whose parameters and point the attributes of its public
/// key object give, stamped with the epoch.
pub open spec fn ec_public(attrs: Seq<token::AttributeView>) -> Result<
    openpgp::KeyView,
    error::ErrorView,
> {
    match token::last_value(attrs, AttributeType::EcParams, false) {
        None => Err(unsupported("EC key missing CKA_EC_PARAMS"@)),
        Some(params) => match der::named_curve(params) {
            Err(message) => Err(unsupported(message)),
            Ok(curve) => match token::last_value(attrs, AttributeType::EcPoint, false) {
                None => Err(unsupported("EC key missing CKA_EC_POINT"@)),
                Some(wrapped) => match der::octet_string(wrapped) {
                    Err(message) => Err(unsupported(message)),
                    Ok(point) => match point_fault(curve, point) {
                        Some(message) => Err(unsupported(message)),
                        None => Ok(
                            openpgp::KeyView {
                                creation_time: 0,
                                pk_algo: PublicKeyAlgorithm::ECDSA,
                                mpis: openpgp::PublicKeyView::ECDSA {
                                    curve,
                                    q: openpgp::stripped(point),
                                },
                            },
                        ),
                    },
                },
            },
        },
    }
}

/// Reads the public material of an elliptic-curve key from the attributes of its
/// public key object.
pub fn read_ec_public(attrs: &Vec<Attribute>) -> (r: Result<Key, Error>)
    ensures
        match ec_public(token::attribute_views(attrs@)) {
            Ok(key) => r matches Ok(k) && k@ == key,
            Err(e) => error::fails_with(r, e),
        },
{
    let params = match token::find_last(attrs, AttributeType::EcParams, false) {
        Some(v) => v,
        None => {
            return Err(Error::UnsupportedKeyType("EC key missing CKA_EC_PARAMS".to_owned()));
        },
    };
    let curve = match der::oid_to_curve(params.as_slice()) {
        Ok(curve) => curve,
        Err(e) => {
            return Err(e);
        },
    };
    let wrapped = match token::find_last(attrs, AttributeType::EcPoint, false) {
        Some(v) => v,
        None => {
            return Err(Error::UnsupportedKeyType("EC key missing CKA_EC_POINT".to_owned()));
        },
    };
    let point = match der::unwrap_octet_string(wrapped.as_slice()) {
        Ok(point) => point,
        Err(e) => {
            return Err(e);
        },
    };
    match validate_uncompressed_ec_point(&curve, point.as_slice()) {
        Ok(()) => {},
        Err(e) => {
            return Err(e);
        },
    }
    let q = openpgp::new_mpi(point.as_slice());
    Key::new(
        UnixTime::epoch(),
        PublicKeyAlgorithm::ECDSA,
        PublicKey::ECDSA { curve, q },
    )
}

/// The public key of a key of type `kt` with the given attributes.
pub open spec fn public_key_of(kt: KeyType, attrs: Seq<token::AttributeView>) -> Result<
    openpgp::KeyView,
    error::ErrorView,
> {
    match kt {
        KeyType::RSA => rsa_public(attrs),
        KeyType::EC => ec_public(attrs),
        _ => Err(unsupported(token::key_type_debug(kt))),
    }
}

/// Reads the public material of a key of type `kt` from attributes: those of the
/// private key object for RSA, and those of the public key object for elliptic
/// curves.
pub fn read_public_key(kt: KeyType, attrs: &Vec<Attribute>) -> (r: Result<Key, Error>)
    requires
        countable(token::attribute_views(attrs@)),
    ensures
        match public_key_of(kt, token::attribute_views(attrs@)) {
            Ok(key) => r matches Ok(k) && k@ == key,
            Err(e) => error::fails_with(r, e),
        },
{
    match kt {
        KeyType::RSA => read_rsa_public(attrs),
        KeyType::EC => read_ec_public(attrs),
        _ => Err(Error::UnsupportedKeyType(kt.debug())),
    }
}

// ---------------------------------------------------------------------------
// Signatures
// ---------------------------------------------------------------------------

/// The numbers that a signature consists of: what `mpi::Signature` holds.
#[derive(Debug)]
pub enum SignatureMpis {
    RSA { s: Vec<u8> },
    ECDSA { r: Vec<u8>, s: Vec<u8> },
}

/// The mathematical content of [`SignatureMpis`].
pub enum SignatureMpisView {
    RSA { s: Seq<u8> },
    ECDSA { r: Seq<u8>, s: Seq<u8> },
}

impl View for SignatureMpis {
    type V = SignatureMpisView;

    open spec fn view(&self) -> SignatureMpisView {
        match self {
            SignatureMpis::RSA { s } => SignatureMpisView::RSA { s: s@ },
            SignatureMpis::ECDSA { r, s } => SignatureMpisView::ECDSA { r: r@, s: s@ },
        }
    }
}

/// An error that OpenPGP calls an invalid argument.
pub open spec fn invalid_argument(message: Seq<char>) -> error::ErrorView {
    error::ErrorView::Other("Invalid argument: "@ + message)
}

/// The size in bytes of a raw ECDSA signature on a NIST curve: two coordinates.
pub open spec fn ecdsa_signature_size(curve: openpgp::CurveView) -> Result<nat, error::ErrorView> {
    match openpgp::coordinate_size(curve) {
        Some(size) => Ok(2 * size),
        None => Err(
            invalid_argument(
                "unsupported ECDSA curve for signature encoding: "@ + openpgp::curve_text(curve),
            ),
        ),
    }
}

/// The size of a raw ECDSA signature on `curve`.
pub fn expected_ecdsa_signature_len(curve: &Curve) -> (r: Result<usize, Error>)
    ensures
        match ecdsa_signature_size(curve@) {
            Ok(n) => r matches Ok(m) && m == n,
            Err(e) => error::fails_with(r, e),
        },
{
    match curve.coordinate_size() {
        Some(size) => Ok(2 * size),
        None => {
            let mut message = text::join2(
                "Invalid argument: ",
                "unsupported ECDSA curve for signature encoding: ",
            );
            message.append(curve.text().as_str());
            assert(message@ =~= "Invalid argument: "@
                + ("unsupported ECDSA curve for signature encoding: "@ + openpgp::curve_text(
                curve@,
            )));
            Err(Error::Other(message))
        },
    }
}

/// The signature that the token's raw result stands for under the key `public`.
///
/// An RSA signature is one number.  An ECDSA signature is two numbers of the size
/// of a coordinate, one after the other; a result of any other length is refused.
pub open spec fn encoded_signature(public: openpgp::KeyView, raw: Seq<u8>) -> Result<
    SignatureMpisView,
    error::ErrorView,
> {
    match public.pk_algo {
        PublicKeyAlgorithm::RSAEncryptSign => Ok(
            SignatureMpisView::RSA { s: openpgp::stripped(raw) },
        ),
        PublicKeyAlgorithm::ECDSA => match public.mpis {
            openpgp::PublicKeyView::ECDSA { curve, q } => match ecdsa_signature_size(curve) {
                Err(e) => Err(e),
                Ok(size) => if raw.len() != size {
                    Err(
                        invalid_argument(
                            "ECDSA signature on curve "@ + openpgp::curve_text(curve)
                                + ": token returned "@ + text::decimal_text(raw.len())
                                + " bytes, expected "@ + text::decimal_text(size),
                        ),
                    )
                } else {
                    Ok(
                        SignatureMpisView::ECDSA {
                            r: openpgp::stripped(raw.take((size / 2) as int)),
                            s: openpgp::stripped(raw.skip((size / 2) as int)),
                        },
                    )
                },
            },
            _ => Err(invalid_argument("ECDSA pk_algo but non-ECDSA public-key material"@)),
        },
        _ => Err(
            invalid_argument(
                "unsupported algorithm for signature encoding: "@
                    + openpgp::public_key_algorithm_text(public.pk_algo),
            ),
        ),
    }
}

/// Takes apart the raw signature that the token returned for the key `public`.
pub fn encode_signature(public: &Key, raw: &[u8]) -> (r: Result<SignatureMpis, Error>)
    ensures
        match encoded_signature(public@, raw@) {
            Ok(sig) => r matches Ok(x) && x@ == sig,
            Err(e) => error::fails_with(r, e),
        },
{
    match public.pk_algo {
        PublicKeyAlgorithm::RSAEncryptSign => Ok(
            SignatureMpis::RSA { s: openpgp::new_mpi(raw) },
        ),
        PublicKeyAlgorithm::ECDSA => {
            let curve = match &public.mpis {
                PublicKey::ECDSA { curve, .. } => curve,
                _ => {
                    return Err(
                        Error::Other(
                            text::join2(
                                "Invalid argument: ",
                                "ECDSA pk_algo but non-ECDSA public-key material",
                            ),
                        ),
                    );
                },
            };
            let expected: usize = match expected_ecdsa_signature_len(curve) {
                Ok(n) => n,
                Err(e) => {
                    return Err(e);
                },
            };
            if raw.len() != expected {
                let mut message = text::join3(
                    "ECDSA signature on curve ",
                    curve.text().as_str(),
                    ": token returned ",
                );
                message.append(text::decimal(raw.len() as u64).as_str());
                message.append(" bytes, expected ");
                message.append(text::decimal(expected as u64).as_str());
                return Err(
                    Error::Other(text::join2("Invalid argument: ", message.as_str())),
                );
            }
            let half: usize = raw.len() / 2;
            let first = vstd::slice::slice_subrange(raw, 0, half);
            let second = vstd::slice::slice_subrange(raw, half, raw.len());
            assert(first@ =~= raw@.take(half as int));
            assert(second@ =~= raw@.skip(half as int));
            Ok(SignatureMpis::ECDSA { r: openpgp::new_mpi(first), s: openpgp::new_mpi(second) })
        },
        _ => {
            let message = text::join2(
                "unsupported algorithm for signature encoding: ",
                public.pk_algo.text().as_str(),
            );
            Err(Error::Other(text::join2("Invalid argument: ", message.as_str())))
        },
    }
}

// ---------------------------------------------------------------------------
// The signer
// ---------------------------------------------------------------------------

/// The mechanisms that tokens sign with.
#[derive(Debug, Clone, Copy, PartialEq, Eq, Structural)]
pub enum Mechanism {
    /// `CKM_RSA_PKCS`: the input is a `DigestInfo`.
    RsaPkcs,
    /// `CKM_ECDSA`: the input is the digest.
    Ecdsa,
}

/// What a token is asked to sign.
#[derive(Debug)]
pub struct SignRequest {
    pub mechanism: Mechanism,
    pub handle: u64,
    pub input: Vec<u8>,
}

/// The mechanism and its input for a digest, under a key of type `kt`.
pub open spec fn signing_input(
    kt: KeyType,
    hash: HashAlgorithm,
    digest: Seq<u8>,
) -> Result<(Mechanism, Seq<u8>), error::ErrorView> {
    match kt {
        KeyType::RSA => match der::digest_info_header(hash) {
            Some(header) => Ok((Mechanism::RsaPkcs, header + digest)),
            None => Err(der::unsupported_hash(hash)),
        },
        KeyType::EC => Ok((Mechanism::Ecdsa, digest)),
        _ => Err(invalid_argument("unsupported key type "@ + token::key_type_debug(kt))),
    }
}

/// A private key on a token, together with its public key.
#[derive(Debug)]
pub struct Pkcs11Signer {
    pub priv_handle: u64,
    pub key_type: KeyType,
    pub public: Key,
}

impl Pkcs11Signer {
    /// The signer for the private key object `priv_handle` of type `kt`, whose
    /// public material is read from `attrs`.
    pub fn new(priv_handle: u64, kt: KeyType, attrs: &Vec<Attribute>) -> (r: Result<Self, Error>)
        requires
            countable(token::attribute_views(attrs@)),
        ensures
            match public_key_of(kt, token::attribute_views(attrs@)) {
                Ok(key) => r matches Ok(s) && s.priv_handle == priv_handle && s.key_type == kt
                    && s.public@ == key,
                Err(e) => error::fails_with(r, e),
            },
    {
        match read_public_key(kt, attrs) {
            Ok(public) => Ok(Pkcs11Signer { priv_handle, key_type: kt, public }),
            Err(e) => Err(e),
        }
    }

    /// The public key.
    pub fn public_key(&self) -> (k: &Key)
        ensures
            *k == self.public,
    {
        &self.public
    }

    /// Stamps the public key with the creation time `t`.
    ///
    /// A fingerprint covers the creation time, so that the key in a certificate and
    /// the issuer of every signature must be stamped alike.
    pub fn set_creation_time(&mut self, t: UnixTime) -> (r: Result<(), Error>)
        ensures
            final(self).priv_handle == old(self).priv_handle,
            final(self).key_type == old(self).key_type,
            if t.secs <= u32::MAX {
                r is Ok && final(self).public@ == (openpgp::KeyView {
                    creation_time: t.secs as u32,
                    ..old(self).public@
                })
            } else {
                error::fails_with(r, openpgp::unrepresentable_time(t)) && final(self).public
                    == old(self).public
            },
    {
        match Key::new(t, self.public.pk_algo, self.public.mpis.clone()) {
            Ok(stamped) => {
                self.public = stamped;
                Ok(())
            },
            Err(e) => Err(e),
        }
    }

    /// What the token is asked, so that it signs `digest`.
    pub fn sign_request(&self, hash_algo: HashAlgorithm, digest: &[u8]) -> (r: Result<
        SignRequest,
        Error,
    >)
        ensures
            match signing_input(self.key_type, hash_algo, digest@) {
                Ok((mechanism, input)) => r matches Ok(q) && q.mechanism == mechanism && q.handle
                    == self.priv_handle && q.input@ == input,
                Err(e) => error::fails_with(r, e),
            },
            r matches Ok(q) ==> is_request(q, *self, hash_algo, digest@),
    {
        match self.key_type {
            KeyType::RSA => match der::digest_info_prefix(hash_algo) {
                Ok(prefix) => Ok(
                    SignRequest {
                        mechanism: Mechanism::RsaPkcs,
                        handle: self.priv_handle,
                        input: bytes::concat(prefix.as_slice(), digest),
                    },
                ),
                Err(e) => Err(e),
            },
            KeyType::EC => {
                let input = vstd::slice::slice_to_vec(digest);
                Ok(
                    SignRequest {
                        mechanism: Mechanism::Ecdsa,
                        handle: self.priv_handle,
                        input,
                    },
                )
            },
            _ => {
                let message = text::join2(
                    "unsupported key type ",
                    self.key_type.debug().as_str(),
                );
                Err(Error::Other(text::join2("Invalid argument: ", message.as_str())))
            },
        }
    }

    /// The signature, from what the token returned: a raw signature, or what it said
    /// of its failure.
    pub fn signature(&self, outcome: Result<Vec<u8>, String>) -> (r: Result<SignatureMpis, Error>)
        ensures
            match outcome {
                Ok(raw) => match encoded_signature(self.public@, raw@) {
                    Ok(sig) => r matches Ok(x) && x@ == sig,
                    Err(e) => error::fails_with(r, e),
                },
                Err(e) => error::fails_with(
                    r,
                    error::ErrorView::Other("PKCS#11 C_Sign failed: "@ + e@),
                ),
            },
    {
        match outcome {
            Ok(raw) => encode_signature(&self.public, raw.as_slice()),
            Err(e) => Err(Error::Other(text::join2("PKCS#11 C_Sign failed: ", e.as_str()))),
        }
    }
}

// ---------------------------------------------------------------------------
// Laws
// ---------------------------------------------------------------------------

/// Taking a raw ECDSA signature apart loses nothing: its two numbers give back the raw
/// one, which is the first number, shifted by the size of a coordinate, and the second.
pub proof fn ecdsa_halves_keep_the_signature(public: openpgp::KeyView, raw: Seq<u8>)
    requires
        public.pk_algo == PublicKeyAlgorithm::ECDSA,
        encoded_signature(public, raw) is Ok,
    ensures
        ({
            let size = openpgp::coordinate_size(public.mpis->curve)->0;
            &&& raw.len() == 2 * size
            &&& encoded_signature(public, raw)->Ok_0 matches SignatureMpisView::ECDSA { r, s }
                && bytes::be_value(raw) == bytes::be_value(r) * vstd::arithmetic::power2::pow2(
                8 * size,
            ) + bytes::be_value(s) && r.len() <= size && s.len() <= size
        }),
{
    let size = openpgp::coordinate_size(public.mpis->curve)->0;
    let first = raw.take(size as int);
    let second = raw.skip(size as int);
    assert(first + second =~= raw);
    bytes::be_value_concat(first, second);
    openpgp::stripping_keeps_the_number(first);
    openpgp::stripping_keeps_the_number(second);
}

/// An RSA signature is the number that the token returned.
pub proof fn rsa_signature_is_the_number(public: openpgp::KeyView, raw: Seq<u8>)
    requires
        public.pk_algo == PublicKeyAlgorithm::RSAEncryptSign,
    ensures
        encoded_signature(public, raw) matches Ok(SignatureMpisView::RSA { s })
            && bytes::be_value(s) == bytes::be_value(raw),
{
    openpgp::stripping_keeps_the_number(raw);
}

/// A raw ECDSA signature is accepted in one length only.
pub proof fn ecdsa_length_is_exact(public: openpgp::KeyView, raw: Seq<u8>)
    requires
        public.pk_algo == PublicKeyAlgorithm::ECDSA,
        public.mpis is ECDSA,
        openpgp::coordinate_size(public.mpis->curve) is Some,
    ensures
        encoded_signature(public, raw) is Ok <==> raw.len() == 2 * openpgp::coordinate_size(
            public.mpis->curve,
        )->0,
{
}

/// An RSA key that is read from a token has a modulus of at least 2048 bits.
pub proof fn rsa_keys_are_large(attrs: Seq<token::AttributeView>)
    requires
        rsa_public(attrs) is Ok,
    ensures
        rsa_public(attrs)->Ok_0.pk_algo == PublicKeyAlgorithm::RSAEncryptSign,
        rsa_public(attrs)->Ok_0.mpis matches openpgp::PublicKeyView::RSA { e, n }
            && bytes::bit_length(bytes::be_value(n)) >= 2048,
{
    let modulus = token::last_value(attrs, AttributeType::Modulus, false)->0;
    openpgp::stripping_keeps_the_number(modulus);
}

/// An elliptic-curve key that is read from a token is an uncompressed point on a NIST
/// curve, kept byte for byte, and usable.
pub proof fn ec_keys_are_points(attrs: Seq<token::AttributeView>)
    requires
        ec_public(attrs) is Ok,
    ensures
        openpgp::usable(ec_public(attrs)->Ok_0),
        ec_public(attrs)->Ok_0.mpis matches openpgp::PublicKeyView::ECDSA { curve, q } && {
            &&& openpgp::coordinate_size(curve) is Some
            &&& q.len() == 1 + 2 * openpgp::coordinate_size(curve)->0
            &&& q[0] == 0x04
            &&& der::octet_string(token::last_value(attrs, AttributeType::EcPoint, false)->0) == Ok::<
                Seq<u8>,
                Seq<char>,
            >(q)
        },
{
}

/// A token with an RSA key is asked for a signature over the `DigestInfo` of the digest,
/// with the object identifier of its hash algorithm (2.16.840.1.101.3.4.2.1 for SHA-256,
/// .2 for SHA-384 and .3 for SHA-512), and with no other algorithm at all.  Whatever the
/// digest, the input ends in it.  A token with an elliptic-curve key is asked for a
/// signature over the digest itself.
pub proof fn requests_are_for_the_digest(hash: HashAlgorithm, digest: Seq<u8>)
    ensures
        hash == HashAlgorithm::SHA256 && digest.len() == 32 ==> signing_input(
            KeyType::RSA,
            hash,
            digest,
        ) == Ok::<(Mechanism, Seq<u8>), error::ErrorView>(
            (Mechanism::RsaPkcs, der::digest_info(1, digest)),
        ),
        hash == HashAlgorithm::SHA384 && digest.len() == 48 ==> signing_input(
            KeyType::RSA,
            hash,
            digest,
        ) == Ok::<(Mechanism, Seq<u8>), error::ErrorView>(
            (Mechanism::RsaPkcs, der::digest_info(2, digest)),
        ),
        hash == HashAlgorithm::SHA512 && digest.len() == 64 ==> signing_input(
            KeyType::RSA,
            hash,
            digest,
        ) == Ok::<(Mechanism, Seq<u8>), error::ErrorView>(
            (Mechanism::RsaPkcs, der::digest_info(3, digest)),
        ),
        signing_input(KeyType::RSA, hash, digest) is Ok <==> hash == HashAlgorithm::SHA256 || hash
            == HashAlgorithm::SHA384 || hash == HashAlgorithm::SHA512,
        signing_input(KeyType::RSA, hash, digest) matches Ok((mechanism, input)) ==> mechanism
            == Mechanism::RsaPkcs && input.len() == 19 + digest.len() && input.skip(19) == digest,
        signing_input(KeyType::EC, hash, digest) == Ok::<(Mechanism, Seq<u8>), error::ErrorView>(
            (Mechanism::Ecdsa, digest),
        ),
        forall|kt: KeyType|
            kt != KeyType::RSA && kt != KeyType::EC ==> (#[trigger] signing_input(kt, hash, digest))
                is Err,
{
    if digest.len() == 32 {
        der::digest_info_bytes(1, digest);
    } else if digest.len() == 48 {
        der::digest_info_bytes(2, digest);
    } else if digest.len() == 64 {
        der::digest_info_bytes(3, digest);
    }
    if signing_input(KeyType::RSA, hash, digest) is Ok {
        assert((signing_input(KeyType::RSA, hash, digest)->Ok_0).1.skip(19) =~= digest);
    }
}

/// The request `q` goes to the key of `s`, and its input is the one for the digest.
pub open spec fn is_request(
    q: SignRequest,
    s: Pkcs11Signer,
    hash: HashAlgorithm,
    digest: Seq<u8>,
) -> bool {
    &&& q.handle == s.priv_handle
    &&& signing_input(s.key_type, hash, digest) == Ok::<(Mechanism, Seq<u8>), error::ErrorView>(
        (q.mechanism, q.input@),
    )
}

/// A request is for the private key of the signer, and for nothing but the digest: two
/// requests to one key for digests of one algorithm are the same only for the same digest.
pub proof fn requests_tell_digests_apart(
    a: SignRequest,
    b: SignRequest,
    s: Pkcs11Signer,
    hash: HashAlgorithm,
    x: Seq<u8>,
    y: Seq<u8>,
)
    requires
        is_request(a, s, hash, x),
        is_request(b, s, hash, y),
    ensures
        a.handle == s.priv_handle,
        a.mechanism == b.mechanism,
        s.key_type == KeyType::EC ==> a.input@ == x,
        a.input@ == b.input@ ==> x == y,
{
    requests_are_for_the_digest(hash, x);
    requests_are_for_the_digest(hash, y);
}

/// The coordinates of a point are as long as the field of the curve needs: 256, 384 and 521
/// bits, in whole bytes.
pub proof fn coordinates_fit_the_field(curve: openpgp::CurveView)
    ensures
        openpgp::coordinate_size(curve) == (match curve {
            openpgp::CurveView::NistP256 => Some((256nat + 7) / 8),
            openpgp::CurveView::NistP384 => Some((384nat + 7) / 8),
            openpgp::CurveView::NistP521 => Some((521nat + 7) / 8),
            _ => None,
        }),
{
}

/// A raw signature is accepted exactly for an RSA key, and for an elliptic-curve key on a
/// NIST curve in the length of two coordinates.  Its numbers have no leading zeros.
pub proof fn signatures_are_encoded_when_they_fit(public: openpgp::KeyView, raw: Seq<u8>)
    ensures
        encoded_signature(public, raw) is Ok <==> public.pk_algo
            == PublicKeyAlgorithm::RSAEncryptSign || public.pk_algo == PublicKeyAlgorithm::ECDSA
            && (public.mpis matches openpgp::PublicKeyView::ECDSA { curve, q } && (
        openpgp::coordinate_size(curve) matches Some(n) && raw.len() == 2 * n)),
        encoded_signature(public, raw) matches Ok(SignatureMpisView::RSA { s }) ==> (s.len() > 0
            ==> s[0] != 0),
        encoded_signature(public, raw) matches Ok(SignatureMpisView::ECDSA { r, s }) ==> (r.len()
            > 0 ==> r[0] != 0) && (s.len() > 0 ==> s[0] != 0),
        public.pk_algo == PublicKeyAlgorithm::RSAEncryptSign ==> encoded_signature(public, raw)->Ok_0
            is RSA,
        public.pk_algo == PublicKeyAlgorithm::ECDSA && encoded_signature(public, raw) is Ok
            ==> encoded_signature(public, raw)->Ok_0 is ECDSA,
{
    openpgp::stripping_keeps_the_number(raw);
    match public.mpis {
        openpgp::PublicKeyView::ECDSA { curve, q } => match openpgp::coordinate_size(curve) {
            Some(n) => {
                openpgp::stripping_keeps_the_number(raw.take(n as int));
                openpgp::stripping_keeps_the_number(raw.skip(n as int));
            },
            None => {},
        },
        _ => {},
    }
}

/// An RSA key that is read has the number of the last modulus and of the last exponent
/// among the attributes, and is read exactly if both are there and the modulus has 2048
/// bits or more.
pub proof fn rsa_keys_are_as_stated(attrs: Seq<token::AttributeView>)
    ensures
        rsa_public(attrs) matches Ok(key) ==> {
            &&& key.creation_time == 0
            &&& key.pk_algo == PublicKeyAlgorithm::RSAEncryptSign
            &&& key.mpis matches openpgp::PublicKeyView::RSA { e, n } && exists|i: int, j: int|
                #![trigger attrs[i], attrs[j]]
                token::is_last(attrs, i, AttributeType::Modulus) && token::is_last(
                    attrs,
                    j,
                    AttributeType::PublicExponent,
                ) && bytes::be_value(n) == bytes::be_value(attrs[i]->Bytes_1) && bytes::be_value(e)
                    == bytes::be_value(attrs[j]->Bytes_1)
        },
        rsa_public(attrs) is Ok <==> exists|i: int, j: int|
            #![trigger attrs[i], attrs[j]]
            token::is_last(attrs, i, AttributeType::Modulus) && token::is_last(
                attrs,
                j,
                AttributeType::PublicExponent,
            ) && bytes::bit_length(bytes::be_value(attrs[i]->Bytes_1)) >= 2048,
{
    token::values_are_the_last(attrs, AttributeType::Modulus);
    token::values_are_the_last(attrs, AttributeType::PublicExponent);
    if rsa_public(attrs) is Ok {
        let i = choose|i: int| #[trigger] token::is_last(attrs, i, AttributeType::Modulus);
        let j = choose|j: int| #[trigger] token::is_last(attrs, j, AttributeType::PublicExponent);
        openpgp::stripping_keeps_the_number(attrs[i]->Bytes_1);
        openpgp::stripping_keeps_the_number(attrs[j]->Bytes_1);
        assert(attrs[i] == attrs[i] && attrs[j] == attrs[j]);
    }
    if exists|i: int, j: int|
        #![trigger attrs[i], attrs[j]]
        token::is_last(attrs, i, AttributeType::Modulus) && token::is_last(
            attrs,
            j,
            AttributeType::PublicExponent,
        ) && bytes::bit_length(bytes::be_value(attrs[i]->Bytes_1)) >= 2048 {
        let (i, j) = choose|i: int, j: int|
            #![trigger attrs[i], attrs[j]]
            token::is_last(attrs, i, AttributeType::Modulus) && token::is_last(
                attrs,
                j,
                AttributeType::PublicExponent,
            ) && bytes::bit_length(bytes::be_value(attrs[i]->Bytes_1)) >= 2048;
        token::last_is_unique(attrs, i, AttributeType::Modulus);
        token::last_is_unique(attrs, j, AttributeType::PublicExponent);
    }
}

/// An elliptic-curve key that is read is the point in the last octet string among the
/// attributes, byte for byte, on the curve that the last parameters name.
pub proof fn ec_keys_are_as_stated(attrs: Seq<token::AttributeView>)
    ensures
        ec_public(attrs) matches Ok(key) ==> {
            &&& key.creation_time == 0
            &&& key.pk_algo == PublicKeyAlgorithm::ECDSA
            &&& key.mpis matches openpgp::PublicKeyView::ECDSA { curve, q } && exists|i: int, j: int|
                #![trigger attrs[i], attrs[j]]
                token::is_last(attrs, i, AttributeType::EcParams) && token::is_last(
                    attrs,
                    j,
                    AttributeType::EcPoint,
                ) && der::named_curve(attrs[i]->Bytes_1) == Ok::<openpgp::CurveView, Seq<char>>(
                    curve,
                ) && der::octet_string(attrs[j]->Bytes_1) == Ok::<Seq<u8>, Seq<char>>(q)
        },
        forall|i: int, j: int, n: nat|
            #![trigger attrs[i], attrs[j], is_uncompressed(der::octet_string(attrs[j]->Bytes_1), n)]
            token::is_last(attrs, i, AttributeType::EcParams) && token::is_last(
                attrs,
                j,
                AttributeType::EcPoint,
            ) && (der::named_curve(attrs[i]->Bytes_1) matches Ok(curve)
                && openpgp::coordinate_size(curve) == Some(n)) && is_uncompressed(
                der::octet_string(attrs[j]->Bytes_1),
                n,
            ) ==> ec_public(attrs) is Ok,
{
    token::values_are_the_last(attrs, AttributeType::EcParams);
    token::values_are_the_last(attrs, AttributeType::EcPoint);
    if ec_public(attrs) is Ok {
        ec_keys_are_points(attrs);
        let i = choose|i: int| #[trigger] token::is_last(attrs, i, AttributeType::EcParams);
        let j = choose|j: int| #[trigger] token::is_last(attrs, j, AttributeType::EcPoint);
        assert(attrs[i] == attrs[i] && attrs[j] == attrs[j]);
    }
    assert forall|i: int, j: int, n: nat|
        #![trigger attrs[i], attrs[j], is_uncompressed(der::octet_string(attrs[j]->Bytes_1), n)]
        token::is_last(attrs, i, AttributeType::EcParams) && token::is_last(
            attrs,
            j,
            AttributeType::EcPoint,
        ) && (der::named_curve(attrs[i]->Bytes_1) matches Ok(curve) && openpgp::coordinate_size(
            curve,
        ) == Some(n)) && is_uncompressed(der::octet_string(attrs[j]->Bytes_1), n) implies ec_public(
        attrs,
    ) is Ok by {
        token::last_is_unique(attrs, i, AttributeType::EcParams);
        token::last_is_unique(attrs, j, AttributeType::EcPoint);
    }
}

/// Whether a point is there, and is the byte 0x04 with two coordinates of `n` bytes.
pub open spec fn is_uncompressed(point: Result<Seq<u8>, Seq<char>>, n: nat) -> bool {
    point matches Ok(p) && p.len() == 1 + 2 * n && p[0] == 0x04
}

/// A point is accepted exactly if it is uncompressed and has the length of the curve.
pub proof fn points_are_uncompressed(curve: openpgp::CurveView, point: Seq<u8>)
    ensures
        point_fault(curve, point) is None <==> (openpgp::coordinate_size(curve) matches Some(n)
            && point.len() == 1 + 2 * n && point[0] == 0x04),
{
}

/// A key of type RSA is read as an RSA key, one of type EC as an elliptic-curve key, and no
/// other key is read at all.
pub proof fn key_types_decide(kt: KeyType, attrs: Seq<token::AttributeView>)
    ensures
        public_key_of(kt, attrs) is Ok ==> kt == KeyType::RSA || kt == KeyType::EC,
        kt == KeyType::RSA ==> public_key_of(kt, attrs) == rsa_public(attrs),
        kt == KeyType::EC ==> public_key_of(kt, attrs) == ec_public(attrs),
{
}

/// The public key object of a private key is looked for by what the private key itself
/// states: the last identifier and the last label that are not empty, both where there are
/// both.  It is looked for among public keys only, and not at all without either.
pub proof fn companions_share_the_names(attrs: Seq<token::AttributeView>)
    ensures
        companion_template(attrs) is Some <==> (exists|i: int| #[trigger]
            token::is_last_filled(attrs, i, AttributeType::Id)) || (exists|i: int| #[trigger]
            token::is_last_filled(attrs, i, AttributeType::Label)),
        companion_template(attrs) matches Some(t) ==> forall|a: token::AttributeView| #[trigger]
            t.contains(a) <==> a == token::AttributeView::Class(ObjectClass::PublicKey) || exists|
                i: int,
            |
                #![trigger attrs[i]]
                attrs[i] == a && (token::is_last_filled(attrs, i, AttributeType::Id)
                    || token::is_last_filled(attrs, i, AttributeType::Label)),
{
    token::filled_values_are_the_last(attrs, AttributeType::Id);
    token::filled_values_are_the_last(attrs, AttributeType::Label);
    if companion_template(attrs) is Some {
        let t = companion_template(attrs)->0;
        let id = token::last_value(attrs, AttributeType::Id, true);
        let label = token::last_value(attrs, AttributeType::Label, true);
        assert forall|a: token::AttributeView| #[trigger] t.contains(a) <==> a
            == token::AttributeView::Class(ObjectClass::PublicKey) || exists|i: int|
            #![trigger attrs[i]]
            attrs[i] == a && (token::is_last_filled(attrs, i, AttributeType::Id)
                || token::is_last_filled(attrs, i, AttributeType::Label)) by {
            if t.contains(a) {
                let k = choose|k: int| 0 <= k < t.len() && t[k] == a;
                if id is Some {
                    let i = choose|i: int| #[trigger]
                        token::is_last_filled(attrs, i, AttributeType::Id);
                    assert(attrs[i] == token::AttributeView::Bytes(AttributeType::Id, id->0));
                }
                if label is Some {
                    let i = choose|i: int| #[trigger]
                        token::is_last_filled(attrs, i, AttributeType::Label);
                    assert(attrs[i] == token::AttributeView::Bytes(AttributeType::Label, label->0));
                }
            }
            if a == token::AttributeView::Class(ObjectClass::PublicKey) {
                assert(t[0] == a);
            }
            if exists|i: int|
                #![trigger attrs[i]]
                attrs[i] == a && (token::is_last_filled(attrs, i, AttributeType::Id)
                    || token::is_last_filled(attrs, i, AttributeType::Label)) {
                let i = choose|i: int|
                    #![trigger attrs[i]]
                    attrs[i] == a && (token::is_last_filled(attrs, i, AttributeType::Id)
                        || token::is_last_filled(attrs, i, AttributeType::Label));
                if token::is_last_filled(attrs, i, AttributeType::Id) {
                    token::last_filled_is_unique(attrs, i, AttributeType::Id);
                    assert(t[1] == a);
                } else {
                    token::last_filled_is_unique(attrs, i, AttributeType::Label);
                    assert(t[t.len() - 1] == a);
                }
            }
        }
    }
}

/// A public key object is taken exactly if it is the only one that was found.
pub proof fn companions_are_unique(candidates: Seq<u64>)
    ensures
        only_companion(candidates) is Ok <==> candidates.len() == 1,
        only_companion(candidates) matches Ok(h) ==> candidates == seq![h],
{
    if candidates.len() == 1 {
        assert(candidates =~= seq![candidates[0]]);
    }
}

} // verus!
