//! What the operations of the library do, stated of the operations themselves: of every
//! result that a call can have, and of how the results of several calls relate.

use vstd::prelude::*;

use crate::access;
use crate::access::AccessArgs;
use crate::acquire;
use crate::acquire::{Acquire, Answer, Phase, Progress, Question};
use crate::assemble;
use crate::assemble::{
    CertPlan, CertRevocationSpec, CertSpec, ReasonForRevocation, RevocationPlan, RevocationReason,
    StepView, SubkeyRevocationSpec,
};
use crate::bytes;
use crate::calendar;
use crate::cert;
use crate::cert::{Cert, CertKey, KeyStatus, Signature};
use crate::cli;
use crate::cli::{KeySelectionArgs, PinFile};
use crate::der;
use crate::error;
use crate::error::Error;
use crate::export;
use crate::export::{CertExportArgs, ExportPrimary, ExportSubkey};
use crate::hexcode;
use crate::listing;
use crate::listing::{KeyReport, Listing, SlotReport, TokenReport};
use crate::nshield;
use crate::nshield::{NshieldQuorumLogin, QuorumStep};
use crate::openpgp;
use crate::openpgp::{
    Curve, Fingerprint, HashAlgorithm, Key, PublicKey, PublicKeyAlgorithm, SymmetricAlgorithm,
    UnixTime,
};
use crate::output;
use crate::output::OpenMode;
use crate::revoke;
use crate::revoke::{Destination, RevokeArgs, RevokeTerms, SubkeyRevoke, SubkeyRevokeRest, SubkeyTarget};
use crate::session;
use crate::session::{KeySelector, LoginMode, Slot};
use crate::sign;
use crate::sign::{
    CheckedJob, KeyAlgo, SignArgs, SignJob, SignPlan, SignRest, SignatureForm, SignOutputView,
};
use crate::signer;
use crate::signer::{Mechanism, Pkcs11Signer, SignRequest, SignatureMpis, SignatureMpisView};
use crate::text;
use crate::time;
use crate::time::Period;
use crate::token;
use crate::token::{Attribute, AttributeType, KeyType, ObjectClass};
use crate::uri;
use crate::uri::Pkcs11Uri;
use crate::verify;
use crate::verify::VerifyRest;

verus! {

// ---------------------------------------------------------------------------
// Signing
// ---------------------------------------------------------------------------

/// An RSA key is asked to sign one DER sequence that is the whole input: the algorithm of
/// the hash, with its object identifier, and the digest as an octet string at the end.  An
/// elliptic-curve key is asked to sign the digest itself, and no other key anything.
pub proof fn requested_signatures(
    s: Pkcs11Signer,
    hash: HashAlgorithm,
    digest: &[u8],
    r: Result<SignRequest, Error>,
)
    requires
        call_ensures(Pkcs11Signer::sign_request, (&s, hash, digest), r),
    ensures
        r matches Ok(q) ==> q.handle == s.priv_handle,
        s.key_type == KeyType::RSA && hash == HashAlgorithm::SHA256 && digest@.len() == 32 ==> (
        r matches Ok(q) && q.mechanism == Mechanism::RsaPkcs && q.input@ == der::digest_info(
            1,
            digest@,
        )),
        s.key_type == KeyType::RSA && hash == HashAlgorithm::SHA384 && digest@.len() == 48 ==> (
        r matches Ok(q) && q.mechanism == Mechanism::RsaPkcs && q.input@ == der::digest_info(
            2,
            digest@,
        )),
        s.key_type == KeyType::RSA && hash == HashAlgorithm::SHA512 && digest@.len() == 64 ==> (
        r matches Ok(q) && q.mechanism == Mechanism::RsaPkcs && q.input@ == der::digest_info(
            3,
            digest@,
        )),
        s.key_type == KeyType::RSA ==> (r matches Ok(q) ==> {
            &&& q.mechanism == Mechanism::RsaPkcs
            &&& q.input@.len() == 19 + digest@.len()
            &&& q.input@.skip(19) == digest@
            &&& q.input@[0] == 0x30
            &&& digest@.len() == der::digest_size(hash) ==> der::der_length(q.input@.skip(1))
                == Ok::<(nat, nat), Seq<char>>(((q.input@.len() - 2) as nat, 1))
            &&& digest@.len() == der::digest_size(hash) ==> der::octet_string(q.input@.skip(17))
                == Ok::<Seq<u8>, Seq<char>>(digest@)
        }),
        s.key_type == KeyType::RSA ==> (r is Ok <==> hash == HashAlgorithm::SHA256 || hash
            == HashAlgorithm::SHA384 || hash == HashAlgorithm::SHA512),
        s.key_type == KeyType::EC ==> (r matches Ok(q) && q.mechanism == Mechanism::Ecdsa
            && q.input@ == digest@),
        s.key_type != KeyType::RSA && s.key_type != KeyType::EC ==> r is Err,
{
    signer::requests_are_for_the_digest(hash, digest@);
    if s.key_type == KeyType::RSA && r is Ok && digest@.len() == der::digest_size(hash) {
        der::digest_info_is_well_formed(hash, digest@);
    }
}

/// Two requests of one key under one hash algorithm are the same only for the same digest.
pub proof fn requests_differ_with_the_digest(
    s: Pkcs11Signer,
    hash: HashAlgorithm,
    x: &[u8],
    y: &[u8],
    a: SignRequest,
    b: SignRequest,
)
    requires
        call_ensures(Pkcs11Signer::sign_request, (&s, hash, x), Ok::<SignRequest, Error>(a)),
        call_ensures(Pkcs11Signer::sign_request, (&s, hash, y), Ok::<SignRequest, Error>(b)),
        a.input@ == b.input@,
    ensures
        x@ == y@,
{
    signer::requests_are_for_the_digest(hash, x@);
    signer::requests_are_for_the_digest(hash, y@);
}

/// What the token returns is taken over whole: the number of an RSA signature, and the two
/// numbers of the length of a coordinate that make up an ECDSA signature, of which any
/// other length is refused.  What the token says of a failure is reported.
pub proof fn returned_signatures(
    s: Pkcs11Signer,
    outcome: Result<Vec<u8>, String>,
    r: Result<SignatureMpis, Error>,
)
    requires
        call_ensures(Pkcs11Signer::signature, (&s, outcome), r),
    ensures
        outcome is Err ==> r is Err,
        outcome matches Ok(raw) ==> {
            &&& s.public@.pk_algo == PublicKeyAlgorithm::RSAEncryptSign ==> (r matches Ok(x)
                && x@ matches SignatureMpisView::RSA { s: n } && bytes::be_value(n)
                == bytes::be_value(raw@))
            &&& s.public@.pk_algo == PublicKeyAlgorithm::ECDSA ==> (r is Ok <==> (
            s.public@.mpis matches openpgp::PublicKeyView::ECDSA { curve, .. } && (
            openpgp::coordinate_size(curve) matches Some(n) && raw@.len() == 2 * n)))
            &&& s.public@.pk_algo == PublicKeyAlgorithm::ECDSA ==> (r matches Ok(x)
                ==> x@ matches SignatureMpisView::ECDSA { r: a, s: b } && bytes::be_value(a)
                == bytes::be_value(raw@.take((raw@.len() / 2) as int)) && bytes::be_value(b)
                == bytes::be_value(raw@.skip((raw@.len() / 2) as int)))
            &&& s.public@.pk_algo != PublicKeyAlgorithm::RSAEncryptSign && s.public@.pk_algo
                != PublicKeyAlgorithm::ECDSA ==> r is Err
        },
{
    if let Ok(raw) = outcome {
        signer::signatures_are_encoded_when_they_fit(s.public@, raw@);
        openpgp::stripping_keeps_the_number(raw@);
        openpgp::stripping_keeps_the_number(raw@.take((raw@.len() / 2) as int));
        openpgp::stripping_keeps_the_number(raw@.skip((raw@.len() / 2) as int));
    }
}

/// A signer holds the private key that it was made for, and the public key that the last
/// attributes state: the numbers of an RSA key, or the point and the curve of an
/// elliptic-curve key.
pub proof fn signers_hold_their_key(
    handle: u64,
    kt: KeyType,
    attrs: Vec<Attribute>,
    s: Pkcs11Signer,
)
    requires
        call_ensures(Pkcs11Signer::new, (handle, kt, &attrs), Ok::<Pkcs11Signer, Error>(s)),
    ensures
        s.priv_handle == handle,
        s.key_type == kt,
        kt == KeyType::RSA || kt == KeyType::EC,
        s.public@.creation_time == 0,
        forall|i: int|
            kt == KeyType::RSA && #[trigger] token::is_last(
                token::attribute_views(attrs@),
                i,
                AttributeType::Modulus,
            ) ==> s.public@.mpis is RSA && bytes::be_value(s.public@.mpis->n) == bytes::be_value(
                token::attribute_views(attrs@)[i]->Bytes_1,
            ) && bytes::bit_length(bytes::be_value(s.public@.mpis->n)) >= 2048,
        forall|i: int|
            kt == KeyType::RSA && #[trigger] token::is_last(
                token::attribute_views(attrs@),
                i,
                AttributeType::PublicExponent,
            ) ==> s.public@.mpis is RSA && bytes::be_value(s.public@.mpis->e) == bytes::be_value(
                token::attribute_views(attrs@)[i]->Bytes_1,
            ),
        forall|i: int|
            kt == KeyType::EC && #[trigger] token::is_last(
                token::attribute_views(attrs@),
                i,
                AttributeType::EcParams,
            ) ==> s.public@.mpis is ECDSA && der::named_curve(
                token::attribute_views(attrs@)[i]->Bytes_1,
            ) == Ok::<openpgp::CurveView, Seq<char>>(s.public@.mpis->curve),
        forall|i: int|
            kt == KeyType::EC && #[trigger] token::is_last(
                token::attribute_views(attrs@),
                i,
                AttributeType::EcPoint,
            ) ==> s.public@.mpis is ECDSA && der::octet_string(
                token::attribute_views(attrs@)[i]->Bytes_1,
            ) == Ok::<Seq<u8>, Seq<char>>(s.public@.mpis->q),
{
    let views = token::attribute_views(attrs@);
    signer::key_types_decide(kt, views);
    signer::rsa_keys_are_as_stated(views);
    signer::ec_keys_are_as_stated(views);
    if kt == KeyType::RSA {
        signer::rsa_keys_are_large(views);
        let (i, j) = choose|i: int, j: int|
            #![trigger views[i], views[j]]
            token::is_last(views, i, AttributeType::Modulus) && token::is_last(
                views,
                j,
                AttributeType::PublicExponent,
            ) && bytes::be_value(s.public@.mpis->n) == bytes::be_value(views[i]->Bytes_1)
                && bytes::be_value(s.public@.mpis->e) == bytes::be_value(views[j]->Bytes_1);
        token::values_are_the_last(views, AttributeType::Modulus);
        token::values_are_the_last(views, AttributeType::PublicExponent);
    }
    if kt == KeyType::EC {
        let (i, j) = choose|i: int, j: int|
            #![trigger views[i], views[j]]
            token::is_last(views, i, AttributeType::EcParams) && token::is_last(
                views,
                j,
                AttributeType::EcPoint,
            ) && der::named_curve(views[i]->Bytes_1) == Ok::<openpgp::CurveView, Seq<char>>(
                s.public@.mpis->curve,
            ) && der::octet_string(views[j]->Bytes_1) == Ok::<Seq<u8>, Seq<char>>(
                s.public@.mpis->q,
            );
        token::values_are_the_last(views, AttributeType::EcParams);
        token::values_are_the_last(views, AttributeType::EcPoint);
    }
}

/// The public key object of a private key is looked for among public keys, by the last
/// identifier and the last label of the private key that are not empty; only one that is
/// the only one found is taken.
pub proof fn companions_are_looked_for_by_name(
    attrs: Vec<Attribute>,
    template: Result<Vec<Attribute>, Error>,
    candidates: Vec<u64>,
    found: Result<u64, Error>,
)
    requires
        call_ensures(signer::find_companion_public_key, (&attrs,), template),
        call_ensures(signer::resolve_companion, (&candidates,), found),
    ensures
        ({
            let views = token::attribute_views(attrs@);
            &&& template is Ok <==> (exists|i: int| #[trigger]
                token::is_last_filled(views, i, AttributeType::Id)) || (exists|i: int| #[trigger]
                token::is_last_filled(views, i, AttributeType::Label))
            &&& template matches Ok(t) ==> forall|a: token::AttributeView| #[trigger]
                token::attribute_views(t@).contains(a) <==> a == token::AttributeView::Class(
                    ObjectClass::PublicKey,
                ) || exists|i: int|
                    #![trigger views[i]]
                    views[i] == a && (token::is_last_filled(views, i, AttributeType::Id)
                        || token::is_last_filled(views, i, AttributeType::Label))
        }),
        found is Ok <==> candidates@.len() == 1,
        found matches Ok(h) ==> h == candidates@[0],
{
    signer::companions_share_the_names(token::attribute_views(attrs@));
    signer::companions_are_unique(candidates@);
}

// ---------------------------------------------------------------------------
// Certificates
// ---------------------------------------------------------------------------

/// A certificate is planned exactly if its times fit into 32 bits and, for a merge, its
/// primary key is that of the certificate and its subkey is new to it.  The plan binds the
/// given user IDs, all of them and in their order, fresh or merging; it uses the given keys
/// with their creation times, and leaves what is merged into unchanged.
pub proof fn planned_certificates(spec: CertSpec, r: Result<CertPlan, Error>)
    requires
        call_ensures(assemble::build_cert, (spec,), r),
    ensures
        r is Ok <==> {
            &&& spec.primary.creation_time.secs < 0x1_0000_0000
            &&& spec.subkey matches Some(sub) ==> sub.creation_time.secs < 0x1_0000_0000
            &&& spec.merge_into matches Some(existing) ==> {
                &&& existing.primary@.fingerprint == openpgp::v4_fingerprint(
                    spec.primary.creation_time.secs as u32,
                    spec.primary.signer.public@.mpis,
                )
                &&& spec.subkey matches Some(sub) ==> forall|i: int|
                    0 <= i < existing.subkeys@.len() ==> (#[trigger] existing.subkeys@[i])@.fingerprint
                        != openpgp::v4_fingerprint(
                        sub.creation_time.secs as u32,
                        sub.signer.public@.mpis,
                    )
            }
        },
        r matches Ok(plan) ==> {
            &&& assemble::bound_user_ids(assemble::step_views(plan.steps@)) == cert::string_views(
                spec.user_ids@,
            )
            &&& forall|i: int|
                0 <= i < spec.user_ids@.len() ==> {
                    let step = plan.steps@[assemble::first_user_id(spec.merge_into) + i]@;
                    (#[trigger] spec.user_ids@[i])@ == step->user_id && step is UserId
                }
            &&& plan.primary.priv_handle == spec.primary.signer.priv_handle
            &&& plan.primary.key_type == spec.primary.signer.key_type
            &&& plan.primary.public@.mpis == spec.primary.signer.public@.mpis
            &&& plan.primary.public@.pk_algo == spec.primary.signer.public@.pk_algo
            &&& plan.primary.public@.creation_time == spec.primary.creation_time.secs
            &&& plan.subkey is Some <==> spec.subkey is Some
            &&& plan.subkey matches Some(s) ==> {
                let sub = spec.subkey->0;
                &&& s.priv_handle == sub.signer.priv_handle
                &&& s.key_type == sub.signer.key_type
                &&& s.public@.mpis == sub.signer.public@.mpis
                &&& s.public@.pk_algo == sub.signer.public@.pk_algo
                &&& s.public@.creation_time == sub.creation_time.secs
            }
            &&& plan.merge_into == spec.merge_into
        },
{
    assemble::certificates_are_made_unless_refused(spec);
    if let Ok(plan) = r {
        assemble::every_user_id_is_bound(plan, spec);
        assemble::plans_keep_the_keys(plan, spec);
    }
}

/// The steps of a plan: in a fresh certificate first the self-signature, by which the
/// primary key certifies, and signs where there is no subkey; then the user IDs, of which
/// only the first of a fresh certificate is marked; and last the subkey, which signs only.
/// Each signature is under the hash algorithm of the key that makes it, and each key has
/// its own period of validity.
pub proof fn planned_steps(spec: CertSpec, plan: CertPlan)
    requires
        call_ensures(assemble::build_cert, (spec,), Ok::<CertPlan, Error>(plan)),
    ensures
        plan.steps@.len() == assemble::first_user_id(spec.merge_into) + spec.user_ids@.len() + (
        if spec.subkey is Some {
            1int
        } else {
            0
        }),
        forall|i: int|
            0 <= i < plan.steps@.len() ==> match (#[trigger] plan.steps@[i])@ {
                StepView::DirectKey { hash, flags, hashes, symmetric, validity } => {
                    &&& spec.merge_into is None && i == 0
                    &&& hash == cert::matching_hash(plan.primary.public@)
                    &&& flags.certify
                    &&& flags.sign <==> spec.subkey is None
                    &&& hashes == seq![
                        HashAlgorithm::SHA512,
                        HashAlgorithm::SHA384,
                        HashAlgorithm::SHA256,
                    ]
                    &&& symmetric == seq![SymmetricAlgorithm::AES256, SymmetricAlgorithm::AES128]
                    &&& validity == spec.primary.validity_period
                },
                StepView::UserId { user_id, hash, primary } => {
                    &&& assemble::first_user_id(spec.merge_into) <= i
                        < assemble::first_user_id(spec.merge_into) + spec.user_ids@.len()
                    &&& hash == cert::matching_hash(plan.primary.public@)
                    &&& primary <==> spec.merge_into is None && i == 1
                },
                StepView::Subkey { consent_hash, hash, flags, validity } => {
                    &&& spec.subkey is Some && i == plan.steps@.len() - 1
                    &&& consent_hash == cert::matching_hash(plan.subkey->0.public@)
                    &&& hash == cert::matching_hash(plan.primary.public@)
                    &&& !flags.certify && flags.sign
                    &&& validity == spec.subkey->0.validity_period
                },
            },
{
    assemble::steps_are_in_order(plan, spec);
    assemble::every_user_id_is_bound(plan, spec);
    assert forall|i: int| 0 <= i < plan.steps@.len() implies ((
    #[trigger] plan.steps@[i])@ matches StepView::DirectKey { hashes, symmetric, .. } ==> hashes
        == seq![HashAlgorithm::SHA512, HashAlgorithm::SHA384, HashAlgorithm::SHA256] && symmetric
        == seq![SymmetricAlgorithm::AES256, SymmetricAlgorithm::AES128]) by {
        if let StepView::DirectKey { hashes, symmetric, .. } = plan.steps@[i]@ {
            assert(hashes =~= seq![
                HashAlgorithm::SHA512,
                HashAlgorithm::SHA384,
                HashAlgorithm::SHA256,
            ]);
            assert(symmetric =~= seq![SymmetricAlgorithm::AES256, SymmetricAlgorithm::AES128]);
        }
    }
}

/// Each NIST curve goes with the SHA-2 algorithm of its size, every other curve with
/// SHA-384, and every other key with SHA-512.
pub proof fn chosen_hashes(key: Key, h: HashAlgorithm)
    requires
        call_ensures(cert::preferred_hash_for, (&key,), h),
    ensures
        h == HashAlgorithm::SHA256 <==> (key@.mpis matches openpgp::PublicKeyView::ECDSA {
            curve,
            ..
        } && curve == openpgp::CurveView::NistP256),
        h == HashAlgorithm::SHA512 <==> key@.mpis !is ECDSA || key@.mpis->curve
            == openpgp::CurveView::NistP521,
        h == HashAlgorithm::SHA256 || h == HashAlgorithm::SHA384 || h == HashAlgorithm::SHA512,
{
    assemble::hashes_match_the_keys(key@);
}

/// Keys go into a certificate exactly if the primary key is the one that it has, and the
/// subkey is not in it yet.
pub proof fn checked_merges(
    existing: Cert,
    primary: Fingerprint,
    subkey: Option<&Fingerprint>,
    r: Result<(), Error>,
)
    requires
        call_ensures(assemble::check_merge, (&existing, &primary, subkey), r),
    ensures
        r is Ok <==> existing.primary@.fingerprint == primary@ && (subkey matches Some(f)
            ==> forall|i: int|
            0 <= i < existing.subkeys@.len() ==> (#[trigger] existing.subkeys@[i])@.fingerprint
                != f@),
{
}

// ---------------------------------------------------------------------------
// Revocations
// ---------------------------------------------------------------------------

/// The revocation of a primary key, from its terms: the reason, the message and the time
/// are those of the terms, and the key that is revoked signs, with the creation time of the
/// terms.  It is refused exactly if that time does not fit into 32 bits.
pub proof fn planned_revocations(
    terms: RevokeTerms,
    signer: Pkcs11Signer,
    r: Result<RevocationPlan, Error>,
)
    requires
        call_ensures(RevokeTerms::revoke_cert, (terms, signer), r),
    ensures
        r is Ok <==> terms.creation_time.secs < 0x1_0000_0000,
        r matches Ok(plan) ==> {
            &&& plan.reason == terms.reason
            &&& plan.message@ == terms.message@
            &&& plan.revocation_time == terms.revocation_time
            &&& plan.subkey is None
            &&& plan.primary.priv_handle == signer.priv_handle
            &&& plan.primary.key_type == signer.key_type
            &&& plan.primary.public@.mpis == signer.public@.mpis
            &&& plan.primary.public@.pk_algo == signer.public@.pk_algo
            &&& plan.primary.public@.creation_time == terms.creation_time.secs
            &&& plan.hash == cert::matching_hash(signer.public@)
        },
{
}

/// The revocation of a subkey, from its terms: the reason, the message and the time are
/// those of the terms, and what is revoked is the subkey that was found.  It is made
/// exactly if the key on the token, created at the time of the terms, is the primary key of
/// the certificate.
pub proof fn planned_subkey_revocations(
    rest: SubkeyRevokeRest,
    signer: Pkcs11Signer,
    r: Result<RevocationPlan, Error>,
)
    requires
        call_ensures(SubkeyRevokeRest::revoke_subkey, (rest, signer), r),
    ensures
        r is Ok <==> rest.terms.creation_time.secs < 0x1_0000_0000 && rest.primary@
            == openpgp::v4_fingerprint(
            rest.terms.creation_time.secs as u32,
            signer.public@.mpis,
        ),
        r matches Ok(plan) ==> {
            &&& plan.reason == rest.terms.reason
            &&& plan.message@ == rest.terms.message@
            &&& plan.revocation_time == rest.terms.revocation_time
            &&& plan.subkey matches Some(k) && k@ == rest.subkey@
            &&& plan.primary.priv_handle == signer.priv_handle
            &&& plan.primary.key_type == signer.key_type
            &&& plan.primary.public@.mpis == signer.public@.mpis
            &&& plan.primary.public@.pk_algo == signer.public@.pk_algo
            &&& plan.primary.public@.creation_time == rest.terms.creation_time.secs
            &&& plan.hash == cert::matching_hash(signer.public@)
        },
{
}

/// The number of a reason, from the command line to the packet: 0 where nothing is said, 1
/// for a key that is superseded, 2 for one that is compromised and 3 for one that is
/// retired.
pub proof fn reason_numbers(given: RevocationReason, reason: ReasonForRevocation, n: u8)
    requires
        reason == assemble::openpgp_reason(given),
        call_ensures(ReasonForRevocation::code, (&reason,), n),
    ensures
        n == (match given {
            RevocationReason::Unspecified => 0u8,
            RevocationReason::Superseded => 1u8,
            RevocationReason::Compromised => 2u8,
            RevocationReason::Retired => 3u8,
        }),
{
    assemble::reasons_have_their_numbers(given);
}

/// `cert-revoke` from its options to its plan.
pub proof fn cert_revoke_does_as_told(
    args: RevokeArgs,
    destination: Destination,
    now: UnixTime,
    path: &str,
    found: Option<Result<bool, String>>,
    first: Progress,
    terms: RevokeTerms,
    signer: Pkcs11Signer,
    plan: RevocationPlan,
    n: u8,
)
    requires
        call_ensures(
            revoke::cmd_cert_revoke,
            (args, &destination, now, path, found),
            Ok::<(Progress, RevokeTerms), Error>((first, terms)),
        ),
        call_ensures(
            RevokeTerms::revoke_cert,
            (terms, signer),
            Ok::<RevocationPlan, Error>(plan),
        ),
        call_ensures(ReasonForRevocation::code, (&plan.reason,), n),
    ensures
        found is None || found == Some(Ok::<bool, String>(false)),
        n == (match args.reason {
            RevocationReason::Unspecified => 0u8,
            RevocationReason::Superseded => 1u8,
            RevocationReason::Compromised => 2u8,
            RevocationReason::Retired => 3u8,
        }),
        plan.message@ == vstd::utf8::encode_utf8(args.message@),
        args.revocation_time is None ==> plan.revocation_time == now,
        args.revocation_time matches Some(ts) ==> time::rfc3339(ts@) == Ok::<
            (u64, u32),
            Seq<char>,
        >((plan.revocation_time.secs, plan.revocation_time.nanos)),
        args.creation_time matches Some(ts) && (time::rfc3339(ts@) matches Ok((secs, nanos))
            && plan.primary.public@.creation_time == secs),
        plan.subkey is None,
        access::primary_access(args.access) matches Ok(a) && access::sets_out(first, a),
{
    revoke::terms_are_the_options(args, now);
    assemble::reasons_have_their_numbers(args.reason);
    planned_revocations(terms, signer, Ok(plan));
}

/// `subkey-revoke` from its options to its plan: the subkey that is revoked is one of the
/// certificate and has the fingerprint that is asked for, and the key that signs is the
/// primary key of that certificate.
pub proof fn subkey_revoke_does_as_told(
    args: RevokeArgs,
    fingerprint: String,
    destination: Destination,
    now: UnixTime,
    command: SubkeyRevoke,
    path: &str,
    found: Option<Result<bool, String>>,
    target: SubkeyTarget,
    c: Cert,
    first: Progress,
    rest: SubkeyRevokeRest,
    signer: Pkcs11Signer,
    plan: RevocationPlan,
    n: u8,
)
    requires
        call_ensures(
            revoke::cmd_subkey_revoke,
            (args, fingerprint, destination, now),
            Ok::<SubkeyRevoke, Error>(command),
        ),
        call_ensures(SubkeyRevoke::passed, (command, path, found), Ok::<SubkeyTarget, Error>(target)),
        call_ensures(
            SubkeyTarget::with_cert,
            (target, &c),
            Ok::<(Progress, SubkeyRevokeRest), Error>((first, rest)),
        ),
        call_ensures(
            SubkeyRevokeRest::revoke_subkey,
            (rest, signer),
            Ok::<RevocationPlan, Error>(plan),
        ),
        call_ensures(ReasonForRevocation::code, (&plan.reason,), n),
    ensures
        found is None || found == Some(Ok::<bool, String>(false)),
        n == (match args.reason {
            RevocationReason::Unspecified => 0u8,
            RevocationReason::Superseded => 1u8,
            RevocationReason::Compromised => 2u8,
            RevocationReason::Retired => 3u8,
        }),
        plan.message@ == vstd::utf8::encode_utf8(args.message@),
        args.revocation_time is None ==> plan.revocation_time == now,
        args.revocation_time matches Some(ts) ==> time::rfc3339(ts@) == Ok::<
            (u64, u32),
            Seq<char>,
        >((plan.revocation_time.secs, plan.revocation_time.nanos)),
        args.creation_time matches Some(ts) && (time::rfc3339(ts@) matches Ok((secs, nanos))
            && plan.primary.public@.creation_time == secs),
        plan.subkey matches Some(k) && {
            &&& k@.fingerprint.len() == 20
            &&& hexcode::notates(cli::without_prefix(cli::dense(fingerprint@)), k@.fingerprint)
            &&& exists|i: int| 0 <= i < c.subkeys@.len() && (#[trigger] c.subkeys@[i])@ == k@
        },
        c.primary@.fingerprint == openpgp::v4_fingerprint(
            plan.primary.public@.creation_time,
            signer.public@.mpis,
        ),
        plan.primary.priv_handle == signer.priv_handle,
        access::primary_access(args.access) matches Ok(a) && access::sets_out(first, a),
{
    revoke::terms_are_the_options(args, now);
    assemble::reasons_have_their_numbers(args.reason);
    revoke::the_target_is_revoked(rest, target, c);
    planned_subkey_revocations(rest, signer, Ok(plan));
    cli::fingerprints_are_as_notated(fingerprint@, target.target@);
}

/// A subkey that is not in the certificate is refused, and so is a file that would be
/// overwritten or a fingerprint that is not forty digits; nothing else is.
pub proof fn subkey_revoke_refuses(
    command: SubkeyRevoke,
    path: &str,
    found: Option<Result<bool, String>>,
    a: Result<SubkeyTarget, Error>,
    target: SubkeyTarget,
    c: Cert,
    b: Result<(Progress, SubkeyRevokeRest), Error>,
)
    requires
        call_ensures(SubkeyRevoke::passed, (command, path, found), a),
        call_ensures(SubkeyTarget::with_cert, (target, &c), b),
    ensures
        a is Ok <==> (found is None || found == Some(Ok::<bool, String>(false))) && exists|
            f: Seq<u8>,
        | #[trigger]
            hexcode::notates(cli::without_prefix(cli::dense(command.fingerprint@)), f) && f.len()
                == 20,
        b is Ok <==> exists|i: int|
            0 <= i < c.subkeys@.len() && (#[trigger] c.subkeys@[i])@.fingerprint == target.target@,
{
    access::found_files_stop_the_command(path@, found);
    let needle = command.fingerprint@;
    if let Ok(f) = cli::full_fingerprint(needle) {
        cli::fingerprints_are_as_notated(needle, f);
    }
    if exists|f: Seq<u8>| #[trigger]
        hexcode::notates(cli::without_prefix(cli::dense(needle)), f) && f.len() == 20 {
        let f = choose|f: Seq<u8>| #[trigger]
            hexcode::notates(cli::without_prefix(cli::dense(needle)), f) && f.len() == 20;
        cli::fingerprints_are_as_notated(needle, f);
    }
    let keys = cert::key_views(c.subkeys@);
    cli::located_subkey_is_right(keys, target.target@);
    assert forall|i: int| 0 <= i < c.subkeys@.len() implies keys[i] == (
    #[trigger] c.subkeys@[i])@ by {}
    if exists|i: int|
        0 <= i < c.subkeys@.len() && (#[trigger] c.subkeys@[i])@.fingerprint == target.target@ {
        let i = choose|i: int|
            0 <= i < c.subkeys@.len() && (#[trigger] c.subkeys@[i])@.fingerprint == target.target@;
        assert(keys[i].fingerprint == target.target@);
    }
    if b is Ok {
        let i = cli::first_with(keys, target.target@);
        assert(c.subkeys@[i]@ == keys[i]);
    }
}

/// The key on the token is the primary key of the certificate exactly if it has its
/// fingerprint.
pub proof fn checked_primaries(published: Fingerprint, on_token: Fingerprint, r: Result<(), Error>)
    requires
        call_ensures(revoke::check_primary, (&published, &on_token), r),
    ensures
        r is Ok <==> published@ == on_token@,
{
}

/// A revocation is written as one signature packet, tag and length before its body, in
/// armor or not; within the armor it is the same packet.
pub proof fn written_revocations(
    sig: Signature,
    plain: Result<Vec<u8>, Error>,
    armored: Result<Vec<u8>, Error>,
)
    requires
        sig.body@.len() <= u32::MAX,
        call_ensures(revoke::write_revocation_output, (&sig, true), plain),
        call_ensures(revoke::write_revocation_output, (&sig, false), armored),
    ensures
        plain matches Ok(p) && {
            &&& p@[0] == 0xc2
            &&& cert::read_packet_length(p@.skip(1)) matches Some((len, octets)) && len
                == sig.body@.len() && p@.skip((1 + octets) as int) == sig.body@
        },
        armored matches Ok(a) && cert::unarmored(a@) == Ok::<Seq<u8>, Seq<char>>(plain->Ok_0@),
{
    cert::signature_is_framed(sig.body@);
}

// ---------------------------------------------------------------------------
// Slots and keys
// ---------------------------------------------------------------------------

/// A URI that names a token designates the slot of that token, with a login and without: a
/// slot is chosen exactly if one token and no other has the label.
pub proof fn named_tokens_are_chosen(
    slots: Vec<Slot>,
    u: Pkcs11Uri,
    login: LoginMode,
    selector: KeySelector,
    r: Result<u64, Error>,
    q: Result<u64, Error>,
)
    requires
        u@.token_label is Some,
        selector == KeySelector::Uri(u),
        call_ensures(session::open_session, (&slots, &selector, &login), r),
        call_ensures(session::find_slot_by_uri, (&slots, &u), q),
    ensures
        r is Ok <==> exists|i: int| #[trigger]
            session::is_only_labelled(slots@, i, u@.token_label->0),
        forall|i: int| #[trigger]
            session::is_only_labelled(slots@, i, u@.token_label->0) ==> r == Ok::<u64, Error>(
                slots@[i].id,
            ),
        r matches Ok(slot) ==> exists|i: int|
            0 <= i < slots@.len() && (#[trigger] slots@[i]).id == slot && (
            slots@[i].token matches Some(info) && text::trimmed(info.label@) == text::trimmed(
                u@.token_label->0,
            )),
        slots@.len() > 0 ==> (q is Ok <==> r is Ok),
        slots@.len() > 0 ==> (q matches Ok(slot) ==> r == Ok::<u64, Error>(slot)),
{
    let label = u@.token_label->0;
    session::token_labels_are_honoured(slots@, u@, label, login);
    if r is Ok {
        let i = choose|i: int|
            #![trigger slots@[i]]
            session::is_only_labelled(slots@, i, label) && slots@[i].id == r->Ok_0;
        assert(slots@[i].id == r->Ok_0);
    }
}

/// A selector that names no token leaves the choice to the login: without one the first
/// slot is chosen whose token needs none, and with one the only slot there is.
pub proof fn unnamed_tokens_go_by_the_login(
    slots: Vec<Slot>,
    selector: KeySelector,
    login: LoginMode,
    r: Result<u64, Error>,
    q: Result<u64, Error>,
)
    requires
        selector@ matches session::SelectorView::Uri(u) ==> u.token_label is None,
        call_ensures(session::open_session, (&slots, &selector, &login), r),
        call_ensures(session::smart_slot_selection, (&slots, &login), q),
    ensures
        login is NoLogin ==> (r is Ok <==> exists|i: int| #[trigger]
            session::is_first_open(slots@, i)),
        login is NoLogin ==> forall|i: int| #[trigger]
            session::is_first_open(slots@, i) ==> r == Ok::<u64, Error>(slots@[i].id) && q == Ok::<
                u64,
                Error,
            >(slots@[i].id),
        login is Pin ==> (r is Ok <==> slots@.len() == 1),
        login is Pin && slots@.len() == 1 ==> r == Ok::<u64, Error>(slots@[0].id) && q == Ok::<
            u64,
            Error,
        >(slots@[0].id),
        q is Ok <==> r is Ok,
{
    match login {
        LoginMode::NoLogin => {
            session::first_open_slot_is_chosen(slots@, selector@);
        },
        LoginMode::Pin(pin) => {
            session::only_slot_is_chosen(slots@, selector@, pin);
            session::login_needs_a_single_slot(slots@, selector@, pin);
        },
    }
}

/// Keys are looked for by what the selector states, among the private keys that can sign;
/// the one that is used is the only one found.
pub proof fn searched_keys(
    selector: KeySelector,
    template: Vec<Attribute>,
    handles: Vec<u64>,
    r: Result<u64, Error>,
    a: token::AttributeView,
)
    requires
        call_ensures(session::find_private_keys, (&selector,), template),
        call_ensures(session::resolve_single_key, (&handles, &selector), r),
    ensures
        token::attribute_views(template@).contains(a) <==> {
            ||| a == token::AttributeView::Class(ObjectClass::PrivateKey)
            ||| a == token::AttributeView::Sign(true)
            ||| session::wanted_label(selector@) matches Some(l) && a
                == token::AttributeView::Bytes(AttributeType::Label, vstd::utf8::encode_utf8(l))
            ||| session::wanted_id(selector@) matches Some(i) && a == token::AttributeView::Bytes(
                AttributeType::Id,
                i,
            )
        },
        r is Ok <==> handles@.len() == 1,
        r matches Ok(h) ==> h == handles@[0],
        handles@.len() > 1 ==> (r matches Err(e) && e@ == error::ErrorView::AmbiguousKey {
            count: handles@.len(),
        }),
        handles@.len() == 0 ==> (r matches Err(e) && e@ is KeyNotFound),
{
    session::searches_are_for_the_selector(selector@, a);
    session::key_must_be_unique(handles@, selector@);
    session::failed_searches_are_told_apart(handles@, selector@);
}

/// The answer to a question for one attribute is the first one, and the type of a key is
/// the one that is answered; no answer is an error.
pub proof fn single_answers(
    attrs: Vec<Attribute>,
    t: AttributeType,
    a: Result<&Attribute, Error>,
    kt: Result<KeyType, Error>,
)
    requires
        attrs@.len() > 0 ==> attrs@[0] is KeyType,
        call_ensures(session::get_attribute, (&attrs, t), a),
        call_ensures(session::key_type, (&attrs,), kt),
    ensures
        a is Ok <==> attrs@.len() > 0,
        a matches Ok(x) ==> *x == attrs@[0],
        kt is Ok <==> attrs@.len() > 0,
        kt matches Ok(x) ==> attrs@[0] == Attribute::KeyType(x),
{
}

/// The last attribute of a type counts, and where empty ones are passed over the last one
/// that is not empty.
pub proof fn last_attributes_count(attrs: Vec<Attribute>, t: AttributeType, r: Option<Vec<u8>>, q: Option<Vec<u8>>)
    requires
        call_ensures(token::find_last, (&attrs, t, false), r),
        call_ensures(token::find_last, (&attrs, t, true), q),
    ensures
        r is Some <==> exists|i: int| #[trigger]
            token::is_last(token::attribute_views(attrs@), i, t),
        forall|i: int| #[trigger]
            token::is_last(token::attribute_views(attrs@), i, t) ==> (r matches Some(v) && v@
                == token::attribute_views(attrs@)[i]->Bytes_1),
        q is Some <==> exists|i: int| #[trigger]
            token::is_last_filled(token::attribute_views(attrs@), i, t),
        forall|i: int| #[trigger]
            token::is_last_filled(token::attribute_views(attrs@), i, t) ==> (q matches Some(v)
                && v@ == token::attribute_views(attrs@)[i]->Bytes_1),
{
    token::values_are_the_last(token::attribute_views(attrs@), t);
    token::filled_values_are_the_last(token::attribute_views(attrs@), t);
}

/// The type of a key is told from its number, and the number from the type: CKK_RSA is 0
/// and CKK_EC is 3.
pub proof fn key_types_and_numbers(code: u64, kt: KeyType, back: u64)
    requires
        call_ensures(KeyType::from_code, (code,), kt),
        call_ensures(KeyType::code, (&kt,), back),
    ensures
        back == code,
        kt == KeyType::RSA <==> code == 0,
        kt == KeyType::DSA <==> code == 1,
        kt == KeyType::DH <==> code == 2,
        kt == KeyType::EC <==> code == 3,
        kt == KeyType::GenericSecret <==> code == 0x10,
        kt == KeyType::DES3 <==> code == 0x15,
        kt == KeyType::AES <==> code == 0x1f,
        kt == KeyType::EcEdwards <==> code == 0x40,
        kt == KeyType::EcMontgomery <==> code == 0x41,
{
    token::key_types_go_by_their_numbers(kt, kt);
}

/// The way to a key starts with the question for the slots, and keeps the selector and the
/// login.
pub proof fn ways_start(selector: KeySelector, login: LoginMode, p: Progress, access: access::Access, q: Progress)
    requires
        call_ensures(Acquire::start, (selector, login), p),
        call_ensures(access::Access::acquire, (access,), q),
    ensures
        p matches Progress::Ask(a, Question::Slots) && a.selector == selector && a.login == login
            && a.phase == Phase::Slots,
        q matches Progress::Ask(a, Question::Slots) && a.selector@ == access.selector@
            && session::login_pin(a.login) == session::login_pin(access.login) && a.phase
            == Phase::Slots,
{
}

/// Each step on the way to a key asks for what comes next, of the slot that is chosen, of
/// the one key that was found and of its one public key object, or gives that key, or says
/// why there is no way.
pub proof fn steps_lead_to_the_key(a: Acquire, answer: Answer, next: Progress)
    requires
        acquire::answers(a.phase, answer),
        call_ensures(Acquire::step, (a, answer), next),
    ensures
        next matches Progress::Ask(b, _) ==> b.selector@ == a.selector@ && b.login == a.login
            && acquire::questions_left(b.phase) < acquire::questions_left(a.phase),
        answer is Failed ==> next is Stuck,
        answer matches Answer::Slots(slots) ==> match session::chosen_slot(
            slots@,
            a.selector@,
            a.login,
        ) {
            Ok(chosen) => next matches Progress::Ask(b, Question::Session { slot, pin }) && {
                &&& b.phase == Phase::Session
                &&& slot == chosen
                &&& a.login is NoLogin ==> pin is None
                &&& a.login matches LoginMode::Pin(p) ==> (pin matches Some(q) && q@ == p@)
            },
            Err(e) => next is Stuck,
        },
        answer is Session ==> (next matches Progress::Ask(b, Question::Objects(t)) && b.phase
            == Phase::PrivateKeys && token::attribute_views(t@) == session::private_key_template(
            a.selector@,
        )),
        a.phase is PrivateKeys ==> (answer matches Answer::Objects(found) ==> {
            &&& found@.len() != 1 <==> next is Stuck
            &&& found@.len() == 1 ==> (next matches Progress::Ask(b, Question::Attributes {
                handle,
                types,
            }) && b.phase == Phase::KeyType { handle: found@[0] } && handle == found@[0] && types@
                == seq![AttributeType::KeyType])
        }),
        a.phase matches Phase::KeyType { handle: h } ==> (answer matches Answer::Attributes(
            attrs,
        ) ==> {
            &&& attrs@.len() == 0 ==> next is Stuck
            &&& attrs@.len() > 0 ==> match attrs@[0] {
                Attribute::KeyType(KeyType::RSA) => next matches Progress::Ask(
                    b,
                    Question::Attributes { handle, types },
                ) && b.phase == Phase::RsaMaterial { handle: h } && handle == h && types@.contains(
                    AttributeType::Modulus,
                ) && types@.contains(AttributeType::PublicExponent) && types@.len() == 2,
                Attribute::KeyType(KeyType::EC) => next matches Progress::Ask(
                    b,
                    Question::Attributes { handle, types },
                ) && b.phase == Phase::EcNames { handle: h } && handle == h && types@.contains(
                    AttributeType::Id,
                ) && types@.contains(AttributeType::Label) && types@.len() == 2,
                _ => next is Stuck,
            }
        }),
        a.phase matches Phase::EcNames { handle: h } ==> (answer matches Answer::Attributes(
            attrs,
        ) ==> match signer::companion_template(token::attribute_views(attrs@)) {
            Some(template) => next matches Progress::Ask(b, Question::Objects(t)) && b.phase
                == Phase::EcObjects { handle: h } && token::attribute_views(t@) == template,
            None => next is Stuck,
        }),
        a.phase matches Phase::EcObjects { handle: h } ==> (answer matches Answer::Objects(
            found,
        ) ==> {
            &&& found@.len() != 1 <==> next is Stuck
            &&& found@.len() == 1 ==> (next matches Progress::Ask(b, Question::Attributes {
                handle,
                types,
            }) && b.phase == Phase::EcMaterial { handle: h } && handle == found@[0]
                && types@.contains(AttributeType::EcParams) && types@.contains(
                AttributeType::EcPoint,
            ) && types@.len() == 2)
        }),
        next matches Progress::Ready(s) ==> (a.phase matches Phase::RsaMaterial { handle }
            && s.priv_handle == handle && s.key_type == KeyType::RSA) || (
        a.phase matches Phase::EcMaterial { handle } && s.priv_handle == handle && s.key_type
            == KeyType::EC),
        a.phase is RsaMaterial ==> (answer matches Answer::Attributes(attrs) ==> {
            &&& next matches Progress::Ready(s) ==> signer::rsa_public(
                token::attribute_views(attrs@),
            ) == Ok::<openpgp::KeyView, error::ErrorView>(s.public@)
            &&& signer::rsa_public(token::attribute_views(attrs@)) matches Ok(key) ==> (
            openpgp::usable(key) <==> next is Ready)
        }),
        a.phase is EcMaterial ==> (answer matches Answer::Attributes(attrs) ==> {
            &&& next matches Progress::Ready(s) ==> signer::ec_public(token::attribute_views(attrs@))
                == Ok::<openpgp::KeyView, error::ErrorView>(s.public@)
            &&& signer::ec_public(token::attribute_views(attrs@)) matches Ok(key) ==> (
            openpgp::usable(key) <==> next is Ready)
        }),
{
    acquire::acquisition_ends(a, answer, next);
    acquire::ways_keep_their_goal(a, answer, next);
    acquire::sessions_are_on_the_chosen_slot(a, answer, next);
    acquire::the_found_key_is_used(a, answer, next);
    acquire::arrived_keys_are_the_found_ones(a, answer, next);
}

// ---------------------------------------------------------------------------
// Listing
// ---------------------------------------------------------------------------

/// The line for a key shows its label, all the bytes of its identifier in hexadecimal
/// notation, and its type.
pub proof fn shown_keys(
    k: KeyReport,
    line: String,
    i: int,
    label: Seq<u8>,
    j: int,
    id: Seq<u8>,
    l: int,
    kt: KeyType,
)
    requires
        call_ensures(listing::key_line, (&k,), line),
        listing::states_label(listing::answer_views(k.label), i, label),
        listing::states_id(listing::answer_views(k.id), j, id),
        listing::states_type(listing::answer_views(k.key_type), l, kt),
    ensures
        exists|shown: Seq<char>| #[trigger]
            hexcode::notates(shown, id) && hexcode::hex_decoded(vstd::utf8::encode_utf8(shown))
                == Ok::<Seq<u8>, hexcode::HexFault>(id) && line@ == "  label="@ + text::debug_text(
                vstd::utf8::decode_utf8(label),
            ) + "  id="@ + shown + "  type="@ + token::listed_key_type(kt),
{
    listing::lines_show_the_key(k, i, label, j, id, l, kt);
    let shown = choose|shown: Seq<char>| #[trigger]
        hexcode::notates(shown, id) && listing::key_text(k) == "  label="@ + text::debug_text(
            vstd::utf8::decode_utf8(label),
        ) + "  id="@ + shown + "  type="@ + token::listed_key_type(kt);
    hexcode::notation_round_trip(shown, id);
}

/// The line for a key with an identifier shows the whole identifier: an option that repeats
/// it selects the key with exactly those bytes.
pub proof fn shown_identifiers_select_the_key(
    k: KeyReport,
    line: String,
    j: int,
    id: Seq<u8>,
    args: KeySelectionArgs,
    flag: &str,
    r: Result<Option<KeySelector>, Error>,
)
    requires
        call_ensures(listing::key_line, (&k,), line),
        listing::states_id(listing::answer_views(k.id), j, id),
        args.key_uri is None && args.key_label is None && args.key_id is Some,
        exists|before: Seq<char>, behind: Seq<char>|
            line@ == before + "  id="@ + args.key_id->0@ + "  type="@ + behind && before == "  label="@
                + text::debug_text(listing::listed_part(k.label, listing::Part::Label)) && behind
                == listing::listed_part(k.key_type, listing::Part::Type),
        call_ensures(KeySelectionArgs::select, (&args, flag), r),
    ensures
        r matches Ok(Some(s)) && s@ == session::SelectorView::Id(id),
{
    let (before, behind) = choose|before: Seq<char>, behind: Seq<char>|
        line@ == before + "  id="@ + args.key_id->0@ + "  type="@ + behind && before == "  label="@
            + text::debug_text(listing::listed_part(k.label, listing::Part::Label)) && behind
            == listing::listed_part(k.key_type, listing::Part::Type);
    let shown = listing::listed_part(k.id, listing::Part::Id);
    let given = args.key_id->0@;
    let head = before + "  id="@;
    let tail = "  type="@ + behind;
    assert(line@ =~= head + given + tail);
    assert(line@ =~= head + shown + tail);
    assert(given.len() == shown.len());
    assert(given =~= line@.subrange(head.len() as int, (head.len() + given.len()) as int));
    assert(shown =~= line@.subrange(head.len() as int, (head.len() + shown.len()) as int));
    listing::shown_identifiers_read_back(k.id, j, id);
    cli::identifiers_select_their_bytes(args, flag@, id);
}

/// A listing has a line for each token and for each signing key that was found on it, up to
/// the first slot in which the search failed, whose error ends it.
pub proof fn listed_keys(slots: Vec<SlotReport>, all_slots: bool, l: Listing, i: int)
    requires
        call_ensures(listing::cmd_list_keys, (&slots, all_slots), l),
        0 <= i < slots@.len(),
        forall|j: int|
            0 <= j < i ==> !((#[trigger] slots@[j]).token matches Some((info, report)) && report
                is NoSearch),
    ensures
        forall|k: int|
            (slots@[i].token matches Some((info, TokenReport::Keys(keys))) && 0 <= k < keys@.len())
                ==> cert::string_views(l.lines@).contains(
                listing::key_text(#[trigger] (slots@[i].token->0).1->Keys_0@[k]),
            ),
        slots@[i].token matches Some((info, TokenReport::Keys(keys))) && keys@.len() > 0
            ==> cert::string_views(l.lines@).contains(
            listing::slot_text(slots@[i].id, (slots@[i].token->0).0),
        ),
        slots@[i].token matches Some((info, TokenReport::NoSearch(e))) ==> (
        l.failure matches Some(x) && x@ == error::ErrorView::Other(e@)),
{
    assert forall|k: int|
        (slots@[i].token matches Some((info, TokenReport::Keys(keys))) && 0 <= k < keys@.len()) implies cert::string_views(
        l.lines@,
    ).contains(listing::key_text(#[trigger] (slots@[i].token->0).1->Keys_0@[k])) by {
        listing::every_key_is_listed(slots@, all_slots, i, k);
    }
    if let Some((info, TokenReport::Keys(keys))) = slots@[i].token {
        if keys@.len() > 0 {
            listing::every_key_is_listed(slots@, all_slots, i, 0);
        }
    }
    listing::listings_end_with_the_failure(slots@, i);
}

/// The listing of two groups of slots is that of the first and then that of the second,
/// unless a search failed in the first.
pub proof fn listings_are_joined(
    a: Vec<SlotReport>,
    b: Vec<SlotReport>,
    both: Vec<SlotReport>,
    all_slots: bool,
    x: Listing,
    y: Listing,
    z: Listing,
)
    requires
        a@.len() > 0 && b@.len() > 0,
        both@ == a@ + b@,
        call_ensures(listing::cmd_list_keys, (&a, all_slots), x),
        call_ensures(listing::cmd_list_keys, (&b, all_slots), y),
        call_ensures(listing::cmd_list_keys, (&both, all_slots), z),
    ensures
        x.failure is None ==> cert::string_views(z.lines@) == cert::string_views(x.lines@)
            + cert::string_views(y.lines@) && (z.failure is Some <==> y.failure is Some),
        x.failure is Some ==> cert::string_views(z.lines@) == cert::string_views(x.lines@)
            && z.failure is Some,
{
    listing::listings_join(a@, b@, all_slots);
}

/// The listing of a single slot: nothing or one line for a slot without a token, and
/// otherwise the line of the token and below it one line for each key, in order.
pub proof fn single_slots_are_listed(slots: Vec<SlotReport>, all_slots: bool, l: Listing)
    requires
        call_ensures(listing::cmd_list_keys, (&slots, all_slots), l),
        slots@.len() <= 1,
    ensures
        slots@.len() == 0 ==> cert::string_views(l.lines@) == seq!["No slots found."@]
            && l.failure is None,
        slots@.len() == 1 && slots@[0].token is None ==> l.lines@.len() == (if all_slots {
            1int
        } else {
            0
        }),
        slots@.len() == 1 ==> (slots@[0].token matches Some((info, TokenReport::Keys(keys))) ==> {
            &&& l.lines@.len() == 1 + (if keys@.len() == 0 {
                1
            } else {
                keys@.len()
            })
            &&& l.lines@[0]@ == listing::slot_text(slots@[0].id, info)
            &&& forall|k: int|
                0 <= k < keys@.len() ==> l.lines@[1 + k]@ == listing::key_text(#[trigger] keys@[k])
            &&& l.failure is None
        }),
{
    let views = cert::string_views(l.lines@);
    assert(views.len() == l.lines@.len());
    assert forall|i: int| 0 <= i < l.lines@.len() implies (#[trigger] l.lines@[i])@ == views[i] by {}
    if slots@.len() == 1 {
        reveal_with_fuel(listing::listed, 2);
        reveal_with_fuel(listing::listing_failure, 2);
        listing::slots_show_their_keys(slots@[0], all_slots);
        assert(slots@.drop_first().len() == 0);
        let own = listing::slot_texts(slots@[0], all_slots);
        assert(own + Seq::empty() =~= own);
        assert(views == own);
        if let Some((info, TokenReport::Keys(keys))) = slots@[0].token {
            if keys@.len() == 0 {
                assert(own.skip(1).len() == 1);
            }
            assert forall|k: int| 0 <= k < keys@.len() implies l.lines@[1 + k]@ == listing::key_text(
                #[trigger] keys@[k],
            ) by {
                assert(own[1 + k] == listing::key_text(keys@[k]));
            }
        }
    }
}

// ---------------------------------------------------------------------------
// sign
// ---------------------------------------------------------------------------

/// A key is of the required algorithm exactly if it is an RSA key of that many bits, or on
/// that curve; without a requirement every key is.
pub proof fn required_algorithms(key: PublicKey, required: Option<KeyAlgo>, r: Result<(), Error>)
    requires
        call_ensures(sign::check_key_algo, (&key, required), r),
    ensures
        required is None ==> r is Ok,
        required matches Some(a) ==> (r is Ok <==> match a {
            KeyAlgo::Rsa2048 => key@ matches openpgp::PublicKeyView::RSA { n, .. }
                && bytes::is_bit_length(bytes::be_value(n), 2048),
            KeyAlgo::Rsa3072 => key@ matches openpgp::PublicKeyView::RSA { n, .. }
                && bytes::is_bit_length(bytes::be_value(n), 3072),
            KeyAlgo::Rsa4096 => key@ matches openpgp::PublicKeyView::RSA { n, .. }
                && bytes::is_bit_length(bytes::be_value(n), 4096),
            KeyAlgo::P256 => key@ matches openpgp::PublicKeyView::ECDSA { curve, .. } && curve
                == openpgp::CurveView::NistP256,
            KeyAlgo::P384 => key@ matches openpgp::PublicKeyView::ECDSA { curve, .. } && curve
                == openpgp::CurveView::NistP384,
            KeyAlgo::P521 => key@ matches openpgp::PublicKeyView::ECDSA { curve, .. } && curve
                == openpgp::CurveView::NistP521,
        }),
{
    sign::key_algorithms_are_exact(key@);
}

/// The key of a certificate with given material is the primary key, or else the first
/// subkey, that has it; there is none exactly if no key has it, or if it is of no known
/// kind.
pub proof fn published_keys(c: Cert, m: PublicKey, r: Option<&CertKey>)
    requires
        call_ensures(sign::find_published_key, (&c, &m), r),
    ensures
        r is Some <==> m@ !is Other && (c.primary@.material == m@ || exists|i: int|
            0 <= i < c.subkeys@.len() && (#[trigger] c.subkeys@[i])@.material == m@),
        r matches Some(k) ==> k@.material == m@ && (k@ == c.primary@ || exists|i: int|
            0 <= i < c.subkeys@.len() && (#[trigger] c.subkeys@[i])@ == k@),
        r matches Some(k) ==> (c.primary@.material == m@ ==> k@ == c.primary@),
{
    sign::published_keys_have_the_material(c, m@);
}

/// `sign` from its options to the signature that is made: it has the form, the place and
/// the force of the options; the key is the one that was acquired for them, of the required
/// algorithm, and created at the stated time or at that of the certificate; and a given
/// certificate is asked unless that is to be skipped.
pub proof fn sign_does_as_told(
    args: SignArgs,
    plan: SignPlan,
    path: &str,
    found: Option<Result<bool, String>>,
    first: Progress,
    rest: SignRest,
    signer: Pkcs11Signer,
    c: Option<&Cert>,
    job: SignJob,
)
    requires
        call_ensures(sign::cmd_sign, (args,), Ok::<SignPlan, Error>(plan)),
        call_ensures(
            SignPlan::set_out,
            (plan, path, found),
            Ok::<(Progress, SignRest), Error>((first, rest)),
        ),
        call_ensures(SignRest::prepare, (rest, signer, c), Ok::<SignJob, Error>(job)),
        c is Some <==> args.input_cert,
    ensures
        found is None || found == Some(Ok::<bool, String>(false)),
        access::primary_access(args.access) matches Ok(a) && access::sets_out(first, a),
        job.form == args.form,
        job.force == args.force,
        args.output matches Some(p) ==> job.target@ == (if output::is_stdout(p@) {
            SignOutputView::Stdout
        } else {
            SignOutputView::File(p@)
        }),
        args.output is None ==> args.form != SignatureForm::Cleartext && job.target@
            == SignOutputView::File(output::signature_path(args.file@)),
        job.check <==> args.input_cert && !args.skip_check,
        args.require_key_algo matches Some(a) ==> sign::is_of_algo(signer.public@.mpis, a),
        args.creation_time matches Some(ts) ==> (time::rfc3339(ts@) matches Ok((secs, nanos))
            && job.signer.public@.creation_time == secs),
        args.creation_time is None ==> (c matches Some(x) && (sign::published_key(
            *x,
            signer.public@.mpis,
        ) matches Some(k) && job.signer.public@.creation_time == k.creation_time)),
        job.signer.priv_handle == signer.priv_handle,
        job.signer.key_type == signer.key_type,
        job.signer.public@.mpis == signer.public@.mpis,
        job.signer.public@.pk_algo == signer.public@.pk_algo,
        job.hash == cert::matching_hash(signer.public@),
        job.warning is Some <==> (args.creation_time is Some && (c matches Some(x) && (
        sign::published_key(*x, signer.public@.mpis) matches Some(k) && k.creation_time
            != job.signer.public@.creation_time))),
{
    sign::plans_are_as_asked(plan, args);
    sign::jobs_are_as_asked(job, rest, signer, c);
    sign::options_reach_the_job(args, plan, rest, signer, c, job);
}

/// What `sign` refuses before it asks the token for anything: a selector or a passphrase
/// that cannot be read, a creation time that cannot be read or that is missing without a
/// certificate, a cleartext document without a place, and a file that would be
/// overwritten.
pub proof fn sign_refuses(
    args: SignArgs,
    a: Result<SignPlan, Error>,
    plan: SignPlan,
    path: &str,
    found: Option<Result<bool, String>>,
    b: Result<(Progress, SignRest), Error>,
)
    requires
        call_ensures(sign::cmd_sign, (args,), a),
        call_ensures(SignPlan::set_out, (plan, path, found), b),
    ensures
        a is Ok <==> {
            &&& access::primary_access(args.access) is Ok
            &&& args.creation_time is None ==> args.input_cert
            &&& args.creation_time matches Some(ts) ==> (time::rfc3339(ts@) matches Ok(
                (secs, nanos),
            ) && openpgp::clock_covers(secs as int))
            &&& args.output is None ==> args.form != SignatureForm::Cleartext
        },
        b is Ok <==> found is None || found == Some(Ok::<bool, String>(false)),
{
    access::found_files_stop_the_command(path@, found);
}

/// Which file is looked for before `sign` asks the token for anything: that of the output,
/// unless it goes to the standard output or overwriting is forced.
pub proof fn sign_looks_first(plan: SignPlan, r: Option<&Vec<u8>>)
    requires
        call_ensures(SignPlan::look_at, (&plan,), r),
    ensures
        r is Some <==> !plan.force && (plan.target@ matches SignOutputView::File(p)
            && !output::is_stdout(p)),
        r matches Some(p) ==> plan.target@ == SignOutputView::File(p@),
{
    sign::files_are_looked_at(plan.target@, plan.force);
}

/// What `sign` refuses once the key is there: a key that is not of the required algorithm,
/// one that the certificate does not have where no time is stated, and a time that does not
/// fit.
pub proof fn sign_prepares(
    rest: SignRest,
    signer: Pkcs11Signer,
    c: Option<&Cert>,
    r: Result<SignJob, Error>,
)
    requires
        call_ensures(SignRest::prepare, (rest, signer, c), r),
    ensures
        r is Ok <==> {
            &&& rest.require_key_algo matches Some(a) ==> sign::is_of_algo(signer.public@.mpis, a)
            &&& rest.creation_time matches Some(t) ==> t.secs < 0x1_0000_0000
                && openpgp::clock_covers(t.secs as int)
            &&& rest.creation_time is None ==> (c matches Some(x) && (sign::published_key(
                *x,
                signer.public@.mpis,
            ) matches Some(k) && openpgp::clock_covers(k.creation_time as int)))
        },
{
    sign::jobs_are_prepared_unless_refused(rest, signer.public@, c);
}

/// A job is passed unchanged.  With a check it is passed only if its key, created at its
/// time, is in the certificate and reported to be a current signing key; without a check it
/// is passed always.
pub proof fn checked_jobs(
    job: SignJob,
    c: Option<&Cert>,
    name: &str,
    now: UnixTime,
    r: Result<CheckedJob, Error>,
)
    requires
        job.check ==> c is Some,
        call_ensures(SignJob::check_signer, (job, c, name, now), r),
    ensures
        r matches Ok(x) ==> x.job() == job,
        !job.check ==> r is Ok,
        job.check && r is Ok ==> {
            let f = openpgp::v4_fingerprint(
                job.signer.public@.creation_time,
                job.signer.public@.mpis,
            );
            &&& c->0.primary@.fingerprint == f || exists|i: int|
                0 <= i < c->0.subkeys@.len() && (#[trigger] c->0.subkeys@[i])@.fingerprint == f
            &&& exists|s: Seq<cert::KeyStatusView>, i: int| #[trigger]
                cert::reported(c->0.data@, now.secs, now.nanos, s) && 0 <= i < s.len() && (
                #[trigger] s[i]).fingerprint == f && s[i].alive && s[i].signing && !s[i].revoked
                    && !s[i].cert_revoked
        },
{
    if job.check && r is Ok {
        let f = openpgp::v4_fingerprint(job.signer.public@.creation_time, job.signer.public@.mpis);
        sign::checked_keys_may_sign(r, f, *c->0, name@, now);
        let (s, i) = choose|s: Seq<cert::KeyStatusView>, i: int| #[trigger]
            cert::reported(c->0.data@, now.secs, now.nanos, s) && 0 <= i < s.len()
                && cert::may_sign(#[trigger] s[i]) && s[i].fingerprint == f;
        cert::signers_are_alive_and_not_revoked(s[i]);
    }
}

/// The creation time of a signature is critical in every form but the binary one.
pub proof fn critical_times(job: SignJob, r: bool)
    requires
        call_ensures(SignJob::critical_creation_time, (&job,), r),
    ensures
        r <==> job.form == SignatureForm::Armored || job.form == SignatureForm::Cleartext,
{
}

/// A key may sign exactly if the certificate has it and lists it among the keys that may.
pub proof fn judged_signers(
    f: Fingerprint,
    c: Cert,
    name: &str,
    signers: Vec<Fingerprint>,
    now: UnixTime,
    r: Result<(), Error>,
    v: Result<String, Error>,
)
    requires
        call_ensures(sign::judge_signer, (&f, &c, name, &signers, now), r),
        call_ensures(verify::judge_signing_key, (&f, &c, name, &signers, now), v),
    ensures
        r is Ok <==> v is Ok,
        r is Ok <==> (c.primary@.fingerprint == f@ || exists|i: int|
            0 <= i < c.subkeys@.len() && (#[trigger] c.subkeys@[i])@.fingerprint == f@) && exists|
            i: int,
        | 0 <= i < signers@.len() && (#[trigger] signers@[i])@ == f@,
{
    let views = cert::fingerprint_views(signers@);
    verify::signers_are_current(f@, c, name@, views, now);
    verify::keys_are_bound_by_fingerprint(c, f@);
    if views.contains(f@) {
        let i = choose|i: int| 0 <= i < views.len() && views[i] == f@;
        assert(signers@[i]@ == f@);
    }
    if exists|i: int| 0 <= i < signers@.len() && (#[trigger] signers@[i])@ == f@ {
        let i = choose|i: int| 0 <= i < signers@.len() && (#[trigger] signers@[i])@ == f@;
        assert(views[i] == f@);
    }
}

// ---------------------------------------------------------------------------
// verify-signing-key
// ---------------------------------------------------------------------------

/// `verify-signing-key` from its options on: the key on the token, created at the stated
/// time, is accepted only if the certificate has it and it is reported to be a current
/// signing key.
pub proof fn verify_does_as_told(
    args: AccessArgs,
    creation_time: Option<String>,
    first: Progress,
    rest: VerifyRest,
    signer: Pkcs11Signer,
    c: Cert,
    name: &str,
    now: UnixTime,
    r: Result<String, Error>,
)
    requires
        call_ensures(
            verify::cmd_verify_signing_key,
            (args, creation_time),
            Ok::<(Progress, VerifyRest), Error>((first, rest)),
        ),
        call_ensures(VerifyRest::with_cert, (rest, signer, &c, name, now), r),
    ensures
        access::primary_access(args) matches Ok(a) && access::sets_out(first, a),
        creation_time matches Some(ts) && time::rfc3339(ts@) == Ok::<(u64, u32), Seq<char>>(
            (rest.creation_time.secs, rest.creation_time.nanos),
        ),
        r is Ok ==> {
            let f = openpgp::v4_fingerprint(
                rest.creation_time.secs as u32,
                signer.public@.mpis,
            );
            &&& rest.creation_time.secs < 0x1_0000_0000
            &&& c.primary@.fingerprint == f || exists|i: int|
                0 <= i < c.subkeys@.len() && (#[trigger] c.subkeys@[i])@.fingerprint == f
            &&& exists|s: Seq<cert::KeyStatusView>, i: int| #[trigger]
                cert::reported(c.data@, now.secs, now.nanos, s) && 0 <= i < s.len() && (
                #[trigger] s[i]).fingerprint == f && s[i].alive && s[i].signing && !s[i].revoked
                    && !s[i].cert_revoked
        },
{
    if r is Ok {
        let f = openpgp::v4_fingerprint(rest.creation_time.secs as u32, signer.public@.mpis);
        verify::verdicts_are_reported(r, f, c, name@, now);
        let (s, i) = choose|s: Seq<cert::KeyStatusView>, i: int| #[trigger]
            cert::reported(c.data@, now.secs, now.nanos, s) && 0 <= i < s.len() && cert::may_sign(
                #[trigger] s[i],
            ) && s[i].fingerprint == f;
        cert::signers_are_alive_and_not_revoked(s[i]);
    }
}

/// A creation time has to be stated for `verify-signing-key`, and a key to be selected.
pub proof fn verify_refuses(
    args: AccessArgs,
    creation_time: Option<String>,
    r: Result<(Progress, VerifyRest), Error>,
)
    requires
        call_ensures(verify::cmd_verify_signing_key, (args, creation_time), r),
    ensures
        r is Ok <==> access::primary_access(args) is Ok && (creation_time matches Some(ts) && (
        time::rfc3339(ts@) matches Ok((secs, nanos)) && openpgp::clock_covers(secs as int))),
{
}

// ---------------------------------------------------------------------------
// cert-export
// ---------------------------------------------------------------------------

/// `cert-export` from its options to its plan: the user IDs are bound, all of them and in
/// their order; the primary key is the one that was acquired for the options of the primary
/// key, created when these say, and the subkey the one for the options of the subkey,
/// created when those say; and each is valid for its own period.
pub proof fn cert_export_does_as_told(
    args: CertExportArgs,
    path: &str,
    found: Option<Result<bool, String>>,
    first: Progress,
    rest: ExportPrimary,
    primary: Pkcs11Signer,
    second: Option<Progress>,
    last: ExportSubkey,
    subkey: Option<Pkcs11Signer>,
    merge_into: Option<Cert>,
    plan: CertPlan,
)
    requires
        call_ensures(
            export::cmd_cert_export,
            (args, path, found),
            Ok::<(Progress, ExportPrimary), Error>((first, rest)),
        ),
        call_ensures(
            ExportPrimary::with_primary,
            (rest, primary),
            Ok::<(Option<Progress>, ExportSubkey), Error>((second, last)),
        ),
        subkey is Some <==> last.subkey is Some,
        call_ensures(
            ExportSubkey::with_subkey,
            (last, subkey, merge_into),
            Ok::<CertPlan, Error>(plan),
        ),
    ensures
        found is None || found == Some(Ok::<bool, String>(false)),
        access::primary_access(args.primary.access) matches Ok(a) && access::sets_out(first, a),
        second is Some <==> subkey is Some,
        second matches Some(p) ==> (access::access_of(args.subkey.access, "--subkey-id"@) matches Ok(
            Some(a),
        ) && access::sets_out(p, a)),
        merge_into is None ==> args.user_ids@.len() > 0,
        assemble::bound_user_ids(assemble::step_views(plan.steps@)) == cert::string_views(
            args.user_ids@,
        ),
        plan.merge_into == merge_into,
        plan.primary.priv_handle == primary.priv_handle,
        plan.primary.public@.mpis == primary.public@.mpis,
        args.primary.creation_time matches Some(ts) && (time::rfc3339(ts@) matches Ok((secs, nanos))
            && plan.primary.public@.creation_time == secs),
        plan.subkey is Some <==> subkey is Some,
        plan.subkey matches Some(s) ==> {
            &&& s.priv_handle == subkey->0.priv_handle
            &&& s.public@.mpis == subkey->0.public@.mpis
            &&& args.subkey.creation_time matches Some(ts) && (time::rfc3339(ts@) matches Ok(
                (secs, nanos),
            ) && s.public@.creation_time == secs)
        },
        merge_into is None ==> (plan.steps@[0]@ matches StepView::DirectKey { validity, .. } && match validity {
            None => args.primary.no_expiration,
            Some(p) => !args.primary.no_expiration && time::validity_from(
                args.primary.validity_period@,
                rest.creation_time.secs,
            ) == Ok::<Period, error::ErrorView>(p),
        }),
        plan.subkey is Some ==> (plan.steps@[plan.steps@.len() - 1]@ matches StepView::Subkey {
            validity,
            ..
        } && match validity {
            None => args.subkey.no_expiration,
            Some(p) => !args.subkey.no_expiration && time::validity_from(
                args.subkey.validity_period@,
                (last.subkey->0).0.secs,
            ) == Ok::<Period, error::ErrorView>(p),
        }),
{
    export::options_reach_the_plan(args, rest, primary, last, subkey, merge_into, plan);
    let spec = export::export_spec(last, subkey, merge_into);
    assemble::steps_are_in_order(plan, spec);
    export::specs_keep_the_parts(last, subkey, merge_into);
    export::tiers_are_the_options(args.primary);
    export::times_are_as_stated(args.primary, "--creation-time"@);
    export::tiers_are_the_options(args.subkey);
    export::times_are_as_stated(args.subkey, "--subkey-creation-time"@);
    assert(merge_into is None ==> plan.steps@[0]@ is DirectKey);
    assert(plan.subkey is Some ==> plan.steps@[plan.steps@.len() - 1]@ is Subkey);
}

/// A fresh certificate needs a user ID; one that is merged into needs none.
pub proof fn cert_export_refuses(
    rest: ExportSubkey,
    subkey: Option<Pkcs11Signer>,
    merge_into: Option<Cert>,
    r: Result<CertPlan, Error>,
)
    requires
        subkey is Some <==> rest.subkey is Some,
        call_ensures(ExportSubkey::with_subkey, (rest, subkey, merge_into), r),
    ensures
        merge_into is None ==> (r is Ok <==> rest.user_ids@.len() > 0
            && rest.primary.creation_time.secs < 0x1_0000_0000 && (rest.subkey matches Some((t, v))
            ==> t.secs < 0x1_0000_0000)),
        merge_into matches Some(c) ==> (r is Ok ==> c.primary@.fingerprint
            == openpgp::v4_fingerprint(
            rest.primary.creation_time.secs as u32,
            rest.primary.signer.public@.mpis,
        )),
{
    let spec = export::export_spec(rest, subkey, merge_into);
    export::specs_keep_the_parts(rest, subkey, merge_into);
    assemble::certificates_are_made_unless_refused(spec);
}

// ---------------------------------------------------------------------------
// Options
// ---------------------------------------------------------------------------

/// The option for a URI goes before that for a label, that before that for an identifier,
/// and that before the choice of the only key; one of them has to be given for the primary
/// key, and none for the subkey.
pub proof fn selected_keys(
    args: KeySelectionArgs,
    r: Result<KeySelector, Error>,
    q: Result<Option<KeySelector>, Error>,
    id: Seq<u8>,
)
    requires
        call_ensures(KeySelectionArgs::resolve, (&args,), r),
        call_ensures(cli::resolve_subkey_selector, (&args,), q),
    ensures
        args.key_uri matches Some(u) ==> match uri::uri_of(u@) {
            Ok(view) => (r matches Ok(s) && s@ == session::SelectorView::Uri(view)) && (
            q matches Ok(Some(s)) && s@ == session::SelectorView::Uri(view)),
            Err(_) => r is Err && q is Err,
        },
        args.key_uri is None ==> (args.key_label matches Some(l) ==> (r matches Ok(s) && s@
            == session::SelectorView::Label(l@)) && (q matches Ok(Some(s)) && s@
            == session::SelectorView::Label(l@))),
        args.key_uri is None && args.key_label is None ==> (args.key_id matches Some(i) ==> (
        hexcode::notates(i@, id) ==> (r matches Ok(s) && s@ == session::SelectorView::Id(id)) && (
        q matches Ok(Some(s)) && s@ == session::SelectorView::Id(id)))),
        args.key_uri is None && args.key_label is None && args.key_id is None ==> {
            &&& args.auto ==> (r matches Ok(s) && s@ == session::SelectorView::Auto) && (
            q matches Ok(Some(s)) && s@ == session::SelectorView::Auto)
            &&& !args.auto ==> r is Err && q matches Ok(None)
        },
{
    cli::options_select_in_order(args, "--key-id"@);
    cli::options_select_in_order(args, "--subkey-id"@);
    if args.key_uri is None && args.key_label is None && args.key_id is Some {
        if hexcode::notates(args.key_id->0@, id) {
            cli::identifiers_select_their_bytes(args, "--key-id"@, id);
            cli::identifiers_select_their_bytes(args, "--subkey-id"@, id);
        }
    }
}

/// A passphrase file gives its contents without the newline at its end, and neither an
/// unreadable nor an empty file gives a passphrase; the file goes before the environment,
/// and without either there is no login.
pub proof fn passphrases(
    file: PinFile,
    r: Result<String, Error>,
    environment: Option<String>,
    a: Result<LoginMode, Error>,
    b: Result<LoginMode, Error>,
)
    requires
        call_ensures(cli::read_pin_file, (file,), r),
        call_ensures(cli::login_mode, (Some(file), environment), a),
        call_ensures(cli::login_mode, (None::<PinFile>, environment), b),
    ensures
        r is Ok <==> (file.contents matches Ok(raw) && raw@.len() > 0 && raw@ != seq!['\n'] && raw@
            != seq!['\r'] && raw@ != seq!['\r', '\n']),
        r matches Ok(pin) ==> {
            let raw = file.contents->Ok_0@;
            &&& pin@.is_prefix_of(raw)
            &&& raw.skip(pin@.len() as int) == Seq::<char>::empty() || raw.skip(pin@.len() as int)
                == seq!['\n'] || raw.skip(pin@.len() as int) == seq!['\r'] || raw.skip(
                pin@.len() as int,
            ) == seq!['\r', '\n']
            &&& raw.last() == '\n' || raw.last() == '\r' ==> pin@.len() < raw.len()
            &&& raw.len() > 1 && raw.last() == '\n' && raw[raw.len() - 2] == '\r' ==> pin@.len()
                == raw.len() - 2
        },
        a is Ok <==> r is Ok,
        a matches Ok(m) ==> (m matches LoginMode::Pin(p) && p@ == r->Ok_0@),
        environment matches Some(pin) ==> (b matches Ok(LoginMode::Pin(p)) && p@ == pin@),
        environment is None ==> b matches Ok(LoginMode::NoLogin),
{
    cli::passphrases_are_the_contents(file);
    cli::files_go_before_the_environment(Some(file), environment);
    cli::files_go_before_the_environment(None, environment);
}

/// The module of the command line goes before the other one, and one of them must be given.
pub proof fn chosen_modules(a: Option<u64>, b: Option<u64>, r: Result<u64, Error>)
    requires
        call_ensures(cli::resolve_module::<u64>, (a, b), r),
    ensures
        r is Ok <==> a is Some || b is Some,
        a matches Some(p) ==> r == Ok::<u64, Error>(p),
        a is None ==> (b matches Some(p) ==> r == Ok::<u64, Error>(p)),
{
}

/// A fingerprint on the command line is forty hexadecimal digits of either case, with white
/// space anywhere and one `0x` before them or not, and nothing else is; the subkey that it
/// denotes is the first one of the certificate that has it.
pub proof fn given_fingerprints(
    needle: &str,
    r: Result<Fingerprint, Error>,
    f: Seq<u8>,
    c: Cert,
    g: Fingerprint,
    k: Result<CertKey, Error>,
)
    requires
        call_ensures(cli::parse_full_fingerprint, (needle,), r),
        call_ensures(cli::locate_subkey_in_cert, (&c, &g), k),
    ensures
        (r matches Ok(x) && x@ == f) <==> f.len() == 20 && hexcode::notates(
            cli::without_prefix(needle@.filter(|ch: char| !text::white_space(ch))),
            f,
        ),
        k is Ok <==> exists|i: int|
            0 <= i < c.subkeys@.len() && (#[trigger] c.subkeys@[i])@.fingerprint == g@,
        k matches Ok(x) ==> x@.fingerprint == g@ && exists|i: int|
            0 <= i < c.subkeys@.len() && (#[trigger] c.subkeys@[i])@ == x@,
{
    cli::white_space_is_left_out(needle@);
    cli::fingerprints_are_as_notated(needle@, f);
    let keys = cert::key_views(c.subkeys@);
    cli::located_subkey_is_right(keys, g@);
    assert forall|i: int| 0 <= i < c.subkeys@.len() implies keys[i] == (
    #[trigger] c.subkeys@[i])@ by {}
    if exists|i: int|
        0 <= i < c.subkeys@.len() && (#[trigger] c.subkeys@[i])@.fingerprint == g@ {
        let i = choose|i: int|
            0 <= i < c.subkeys@.len() && (#[trigger] c.subkeys@[i])@.fingerprint == g@;
        assert(keys[i].fingerprint == g@);
    }
    if k is Ok {
        let i = cli::first_with(keys, g@);
        assert(c.subkeys@[i]@ == keys[i]);
    }
}

/// A URI with a token, an object and an identifier selects by all three, and a text without
/// the scheme is no URI.
pub proof fn read_uris(
    s: &str,
    r: Result<Pkcs11Uri, Error>,
    token: Seq<char>,
    object: Seq<char>,
    id: Seq<char>,
)
    requires
        call_ensures(Pkcs11Uri::parse_text, (s,), r),
    ensures
        !"pkcs11:"@.is_prefix_of(s@) ==> r is Err,
        (s@ == "pkcs11:"@ + ("token"@ + seq!['='] + token + seq![';'] + ("object"@ + seq!['=']
            + object + seq![';'] + ("id"@ + seq!['='] + id))) && !token.contains(';')
            && !object.contains(';') && !id.contains(';')) ==> match (
            uri::text_value(token),
            uri::text_value(object),
            uri::id_value(id),
        ) {
            (Ok(t), Ok(o), Ok(i)) => r matches Ok(u) && u@.token_label == Some(t)
                && u@.object_label == Some(o) && u@.key_id == Some(i),
            _ => true,
        },
{
    uri::uris_start_with_the_scheme(s@);
    if (s@ == "pkcs11:"@ + ("token"@ + seq!['='] + token + seq![';'] + ("object"@ + seq!['=']
        + object + seq![';'] + ("id"@ + seq!['='] + id))) && !token.contains(';')
        && !object.contains(';') && !id.contains(';')) && uri::text_value(token) is Ok
        && uri::text_value(object) is Ok && uri::id_value(id) is Ok {
        uri::uris_select_by_all_attributes(token, object, id);
    }
}

/// What the values of a URI stand for: a value in which every byte is escaped stands for
/// those bytes, as an identifier and, where they are UTF-8, as a text; and an identifier
/// without an escape is hexadecimal.
pub proof fn read_values(
    s: &str,
    plain: Result<Vec<u8>, Error>,
    t: Result<String, Error>,
    id: Result<Vec<u8>, Error>,
    bytes: Seq<u8>,
    label: Seq<char>,
)
    requires
        call_ensures(uri::percent_decode_bytes, (s,), plain),
        call_ensures(uri::percent_decode, (s,), t),
        call_ensures(uri::parse_id_bytes, (s,), id),
    ensures
        uri::is_escaped(s@, bytes) ==> (plain matches Ok(v) && v@ == bytes),
        uri::is_escaped(s@, bytes) && bytes.len() > 0 ==> (id matches Ok(v) && v@ == bytes),
        uri::is_escaped(s@, vstd::utf8::encode_utf8(label)) ==> (t matches Ok(v) && v@ == label),
        vstd::utf8::is_ascii_chars(s@) && !s@.contains('%') ==> (t matches Ok(v) && v@ == s@),
        hexcode::notates(s@, bytes) ==> (id matches Ok(v) && v@ == bytes),
{
    if uri::is_escaped(s@, bytes) {
        uri::percent_round_trip(s@, bytes);
        if bytes.len() > 0 {
            let digits = hexcode::hex_notation(bytes);
            hexcode::written_notation(bytes);
            uri::id_notations_agree(s@, digits, bytes);
        }
    }
    if uri::is_escaped(s@, vstd::utf8::encode_utf8(label)) {
        uri::percent_text_round_trip(s@, label);
    }
    if vstd::utf8::is_ascii_chars(s@) && !s@.contains('%') {
        uri::plain_value_stands_for_itself(s@);
    }
    if hexcode::notates(s@, bytes) {
        hexcode::notation_round_trip(s@, bytes);
        assert forall|i: int| 0 <= i < s@.len() implies #[trigger] s@[i] != '%' by {
            assert(hexcode::nibble(s@[i]) is Some);
        }
    }
}

// ---------------------------------------------------------------------------
// Times
// ---------------------------------------------------------------------------

/// A timestamp is read exactly if it is one and the clock reaches its time, to the
/// nanosecond; without one the time is the epoch, unless one is required.
pub proof fn read_times(
    ts: &str,
    flag: &str,
    a: Result<UnixTime, Error>,
    b: Result<UnixTime, Error>,
    c: Result<UnixTime, Error>,
    d: Result<UnixTime, Error>,
)
    requires
        call_ensures(time::parse_creation_time, (Some(ts),), a),
        call_ensures(time::parse_creation_time, (None::<&str>,), b),
        call_ensures(time::require_creation_time, (Some(ts), flag), c),
        call_ensures(time::require_creation_time, (None::<&str>, flag), d),
    ensures
        a is Ok <==> (time::rfc3339(ts@) matches Ok((secs, nanos)) && openpgp::clock_covers(
            secs as int,
        )),
        a matches Ok(t) ==> time::rfc3339(ts@) == Ok::<(u64, u32), Seq<char>>((t.secs, t.nanos)),
        b matches Ok(t) && t.secs == 0 && t.nanos == 0,
        c is Ok <==> a is Ok,
        c matches Ok(t) ==> a == Ok::<UnixTime, Error>(t),
        d is Err,
{
    time::timestamps_are_read_within_the_clock(ts@, a);
}

/// A number of years from a date ends on the same day of the same month at the same time of
/// the day, whatever leap years fall in between; only the 29th of February becomes the 28th
/// where there is no 29th.
pub proof fn read_periods(
    s: &str,
    start: UnixTime,
    r: Result<Period, Error>,
    d: calendar::Date,
    n: u64,
    time_of_day: nat,
)
    requires
        call_ensures(time::parse_validity_from, (s, start), r),
        time_of_day < 86_400,
        calendar::is_date(d),
        start.secs == calendar::day_number(d) * 86_400 + time_of_day,
        d.year + n <= u64::MAX,
    ensures
        s@ == text::decimal_text(n as nat).push('y') ==> ({
            let day = if d.month == 2 && d.day == 29 && !calendar::is_leap(d.year + n) {
                28u64
            } else {
                d.day
            };
            let end = calendar::Date { year: (d.year + n) as u64, month: d.month, day };
            calendar::is_date(end) && (calendar::day_number(end) * 86_400 + time_of_day
                <= u64::MAX ==> (r matches Ok(p) && p.nanos == 0 && start.secs + p.secs
                == calendar::day_number(end) * 86_400 + time_of_day))
        }),
{
    if s@ == text::decimal_text(n as nat).push('y') {
        time::year_notation(n);
        calendar::years_later_fall_on_the_date(d, n as nat, time_of_day);
        assert((calendar::day_number(d) * 86_400 + time_of_day) as nat == start.secs as nat);
        if calendar::seconds_later(start.secs as nat, n as nat) <= u64::MAX {
            time::years_end_on_the_date(s@, start.secs, n);
        }
        time::years_are_whole(s@, start.secs);
    }
}

/// A number of weeks, of days or of hours is that many times seven days, 24 hours or 3600
/// seconds, from whatever start and without one; a year without a start is 365.25 days.
pub proof fn read_fixed_periods(
    s: &str,
    start: UnixTime,
    r: Result<Period, Error>,
    q: Result<Period, Error>,
    n: u64,
)
    requires
        call_ensures(time::parse_validity_from, (s, start), r),
        call_ensures(time::parse_validity, (s,), q),
        n <= 30_000_000_000_000,
    ensures
        s@ == text::decimal_text(n as nat).push('w') ==> (r matches Ok(p) && p.secs == n * 604_800
            && p.nanos == 0) && q == r,
        s@ == text::decimal_text(n as nat).push('d') ==> (r matches Ok(p) && p.secs == n * 86_400
            && p.nanos == 0) && q == r,
        s@ == text::decimal_text(n as nat).push('h') ==> (r matches Ok(p) && p.secs == n * 3_600
            && p.nanos == 0) && q == r,
        n <= 500_000_000_000 && s@ == text::decimal_text(n as nat).push('y') ==> (q matches Ok(p)
            && 4 * p.secs == n * 1461 * 86_400 && p.nanos == 0),
{
    let digits = text::decimal_text(n as nat);
    text::decimals_read_back(n as nat);
    time::units_have_their_seconds(n as nat);
    if s@ == digits.push('y') {
        time::year_notation(n);
        if n <= 500_000_000_000 {
            time::years_without_a_start(s@, n);
        }
    }
    let none = Seq::<char>::empty();
    assert(!text::white_space(s@[0]) && !text::white_space(s@.last()) ==> text::trimmed(s@) == s@) by {
        if s@.len() > 0 && !text::white_space(s@[0]) && !text::white_space(s@.last()) {
            assert(none + s@ + none =~= s@);
            text::trimming_keeps_the_core(none, s@, none);
        } else if s@.len() == 0 {
            assert(s@ =~= none);
        }
    }
    if s@ == digits.push('w') || s@ == digits.push('d') || s@ == digits.push('h') {
        assert(s@[0] == digits[0]);
        assert(text::trimmed(s@) == s@);
        time::years_end_in_y(s@);
    }
}

/// A number of years after a date, the 29th of February apart, is the same time of the day on
/// the same day of the same month, as long as that can be counted.
pub proof fn years_are_added(secs: u64, n: u64, later: u128, d: calendar::Date, time_of_day: nat)
    requires
        call_ensures(calendar::add_years, (secs, n), later),
        time_of_day < 86_400,
        calendar::is_date(d),
        secs == calendar::day_number(d) * 86_400 + time_of_day,
        d.year + n <= u64::MAX,
        !(d.month == 2 && d.day == 29),
    ensures
        ({
            let end = calendar::Date { year: (d.year + n) as u64, month: d.month, day: d.day };
            let t = calendar::day_number(end) * 86_400 + time_of_day;
            calendar::is_date(end) && (later == t || later - secs > u64::MAX && t - secs
                > u64::MAX)
        }),
{
    calendar::years_later_fall_on_the_date(d, n as nat, time_of_day);
    assert((calendar::day_number(d) * 86_400 + time_of_day) as nat == secs as nat);
}

/// A day has the date that follows that of the day before, from the first of January 1970
/// on, and a date its day.
pub proof fn days_and_dates(
    days: u64,
    d: calendar::Date,
    next: calendar::Date,
    first: calendar::Date,
    n: u64,
)
    requires
        days < calendar::MAX_DAYS,
        call_ensures(calendar::date_of_day, (days,), d),
        call_ensures(calendar::date_of_day, ((days + 1) as u64,), next),
        call_ensures(calendar::date_of_day, (0u64,), first),
        call_ensures(calendar::day_of_date, (&d,), n),
    ensures
        n == days,
        first == (calendar::Date { year: 1970, month: 1, day: 1 }),
        next.year == d.year && next.month == d.month && next.day == d.day + 1 || next.year == d.year
            && next.month == d.month + 1 && next.day == 1 && d.day == calendar::days_in_month(
            d.year as int,
            d.month as int,
        ) || next.year == d.year + 1 && next.month == 1 && next.day == 1 && d.month == 12 && d.day
            == 31,
{
    calendar::days_count_from_the_epoch(first);
    calendar::days_follow_each_other(d, next);
    calendar::months_have_their_days(d.year as int, d.month as int);
}

// ---------------------------------------------------------------------------
// Files
// ---------------------------------------------------------------------------

/// The signature for a file goes next to it, under its name with `.asc` behind; standard
/// output is `-`; and every other output is looked for first unless overwriting is forced.
pub proof fn output_paths(
    p: Vec<u8>,
    dir: Seq<u8>,
    name: Seq<u8>,
    out: Vec<u8>,
    stdout: bool,
    force: bool,
    look: bool,
)
    requires
        dir.len() == 0 || dir.last() == 0x2f,
        name.len() > 0,
        forall|i: int| 0 <= i < name.len() ==> #[trigger] name[i] != 0x2f,
        name != seq![0x2eu8],
        name != seq![0x2eu8, 0x2e],
        p@ == dir + name,
        call_ensures(output::default_signature_path, (&p,), out),
        call_ensures(output::names_stdout, (&p,), stdout),
        call_ensures(output::preflight_needed, (Some(&p), force), look),
    ensures
        out@ == p@ + seq![0x2eu8, 0x61, 0x73, 0x63],
        stdout <==> p@.len() == 1 && p@[0] == 0x2d,
        look <==> !force && !stdout,
{
    output::signatures_go_next_to_the_file(dir, name);
    assert(p@.last() == name[name.len() - 1]);
    if p@.last() != 0x2e {
        output::only_a_dash_is_standard_output(p@);
    } else {
        output_dash_dots(p@, dir, name);
    }
}

/// A path that ends in a name with a dot at its end, which is neither `.` nor `..`, does
/// not stand for the standard output.
proof fn output_dash_dots(p: Seq<u8>, dir: Seq<u8>, name: Seq<u8>)
    requires
        dir.len() == 0 || dir.last() == 0x2f,
        name.len() > 0,
        forall|i: int| 0 <= i < name.len() ==> #[trigger] name[i] != 0x2f,
        name != seq![0x2eu8],
        p == dir + name,
        p.last() == 0x2e,
    ensures
        !output::is_stdout(p),
{
    assert(p.last() == name[name.len() - 1]);
    if p.len() > 1 && p[p.len() - 2] == 0x2f {
        if name.len() > 1 {
            assert(p[p.len() - 2] == name[name.len() - 2]);
        } else {
            assert(name =~= seq![0x2eu8]);
        }
    }
    assert(output::path_end(p) == p.len());
    assert(p.take(p.len() as int) =~= p);
    if p == seq![0x2du8] {
        assert(p.last() == 0x2d);
    }
}

/// A command goes on exactly if no file was found at the place of its output, and a file is
/// emptied only by force.
pub proof fn overwriting(path: &str, found: Result<bool, String>, r: Result<(), Error>, force: bool, m: OpenMode)
    requires
        call_ensures(output::preflight_overwrite, (path, found), r),
        call_ensures(output::open_mode, (force,), m),
    ensures
        r is Ok <==> found == Ok::<bool, String>(false),
        m == OpenMode::Truncate <==> force,
        m == OpenMode::CreateNew <==> !force,
{
}

/// Whether the place of a revocation is looked at first.
pub proof fn revocations_look_first(d: Destination, r: bool)
    requires
        call_ensures(Destination::look, (&d,), r),
    ensures
        r <==> !d.force && (d.output matches Some(p) && !output::is_stdout(p@)),
{
}

// ---------------------------------------------------------------------------
// Card sets
// ---------------------------------------------------------------------------

/// A login to a card set begins with the first card and all shares missing, goes on with
/// the next card as long as shares are missing, and ends when none is; a call that fails
/// ends it.
pub proof fn quorum_logins(
    rv: u64,
    k: u64,
    n: u64,
    begun: Result<(String, QuorumStep), Error>,
    login: NshieldQuorumLogin,
    left: u64,
    next: Result<QuorumStep, Error>,
    ended: Result<(), Error>,
)
    requires
        login.card < u64::MAX,
        call_ensures(NshieldQuorumLogin::quorum_login, (rv, k, n), begun),
        call_ensures(NshieldQuorumLogin::presented, (login, rv, left), next),
        call_ensures(NshieldQuorumLogin::ended, (rv,), ended),
    ensures
        begun is Ok <==> rv == 0,
        next is Ok <==> rv == 0,
        ended is Ok <==> rv == 0,
        begun matches Ok((said, step)) ==> {
            &&& step is End <==> k == 0
            &&& step matches QuorumStep::Present(l) ==> l.k == k && l.n == n && l.card == 1
                && l.shares_left == k
            &&& said@ == "OCS quorum login: need "@ + text::decimal_text(k as nat) + " of "@
                + text::decimal_text(n as nat) + " cards."@
        },
        next matches Ok(step) ==> {
            &&& step is End <==> left == 0
            &&& step matches QuorumStep::Present(l) ==> l.k == login.k && l.n == login.n && l.card
                == login.card + 1 && l.shares_left == left
        },
{
    nshield::announcements_state_the_quorum(k, n);
}

/// A call succeeded exactly if it returned zero, and what is said otherwise names the call
/// and states what it returned.
pub proof fn returned_values(rv: u64, call: &str, r: Result<(), Error>)
    requires
        call_ensures(nshield::ck_ok, (rv, call), r),
    ensures
        r is Ok <==> rv == 0,
        r matches Err(e) ==> e@ == error::ErrorView::Other(
            call@ + " returned "@ + text::ckr_hex(rv as nat) + " ("@ + nshield::return_value_text(
                rv,
            ) + ")"@,
        ),
{
    nshield::failed_calls_are_named(rv, call@);
}

// ---------------------------------------------------------------------------
// Reading and writing certificates
// ---------------------------------------------------------------------------

/// A certificate that is read holds its bytes and its keys, the primary key first: each has
/// the fingerprint, the version and the creation time of its packet, and its material.
pub proof fn read_certificates(data: &[u8], r: Result<Cert, Error>)
    requires
        call_ensures(cert::parse_cert, (data,), r),
    ensures
        r is Ok <==> cert::size_fault(data@) is None && (cert::certificate_keys(data@) matches Ok(
            raw,
        ) && forall|i: int| 0 <= i < raw.len() ==> cert::cert_key_of(#[trigger] raw[i]) is Ok),
        r matches Ok(c) ==> {
            let raw = cert::certificate_keys(data@)->Ok_0;
            &&& c.data@ == data@
            &&& raw.len() == 1 + c.subkeys@.len()
            &&& cert::cert_key_of(raw[0]) == Ok::<cert::CertKeyView, error::ErrorView>(c.primary@)
            &&& forall|i: int|
                0 <= i < c.subkeys@.len() ==> cert::cert_key_of(raw[i + 1]) == Ok::<
                    cert::CertKeyView,
                    error::ErrorView,
                >((#[trigger] c.subkeys@[i])@)
        },
{
    cert::certificates_are_read_unless_refused(data@);
    if let Ok(c) = r {
        let raw = cert::certificate_keys(data@)->Ok_0;
        let keys = cert::parsed_keys(data@)->Ok_0;
        cert::every_key_is_read(raw);
        cert::the_first_key_is_primary(c, data@, keys);
        assert(cert::cert_key_of(raw[0]) == Ok::<cert::CertKeyView, error::ErrorView>(keys[0]));
        assert forall|i: int| 0 <= i < c.subkeys@.len() implies cert::cert_key_of(raw[i + 1])
            == Ok::<cert::CertKeyView, error::ErrorView>((#[trigger] c.subkeys@[i])@) by {
            assert(c.subkeys@[i]@ == keys[i + 1]);
        }
    }
}

/// The keys that may sign are those that are alive and made for signing, and are not
/// revoked, in a certificate that is not revoked.
pub proof fn current_signing_keys(s: Vec<KeyStatus>, v: Vec<Fingerprint>, f: Seq<u8>)
    requires
        call_ensures(cert::signers_among, (&s,), v),
    ensures
        cert::fingerprint_views(v@).contains(f) <==> exists|i: int|
            0 <= i < s@.len() && (#[trigger] s@[i]).fingerprint@ == f && s@[i].alive && s@[i].signing
                && !s@[i].revoked && !s@[i].cert_revoked,
{
    let views = cert::status_views(s@);
    cert::signing_keys_may_sign(views, f);
    if cert::fingerprint_views(v@).contains(f) {
        let i = choose|i: int|
            0 <= i < views.len() && cert::may_sign(#[trigger] views[i]) && views[i].fingerprint == f;
        cert::signers_are_alive_and_not_revoked(views[i]);
        assert(s@[i].fingerprint@ == f);
    }
    if exists|i: int|
        0 <= i < s@.len() && (#[trigger] s@[i]).fingerprint@ == f && s@[i].alive && s@[i].signing
            && !s@[i].revoked && !s@[i].cert_revoked {
        let i = choose|i: int|
            0 <= i < s@.len() && (#[trigger] s@[i]).fingerprint@ == f && s@[i].alive
                && s@[i].signing && !s@[i].revoked && !s@[i].cert_revoked;
        cert::signers_are_alive_and_not_revoked(views[i]);
        assert(cert::may_sign(views[i]) && views[i].fingerprint == f);
    }
}

/// A certificate that is written and read again has its keys and its user IDs, in armor or
/// not.
pub proof fn written_certificates(
    c: Cert,
    plain: Result<Vec<u8>, Error>,
    armored: Result<String, Error>,
)
    requires
        call_ensures(cert::export_binary_cert, (&c,), plain),
        call_ensures(cert::export_armored_cert, (&c,), armored),
    ensures
        plain is Ok <==> armored is Ok,
        plain is Ok <==> cert::size_fault(c.data@) is None && cert::rewrite_fault(c.data@) is None
            && cert::certificate_keys(c.data@) is Ok,
        plain matches Ok(out) ==> cert::certificate_keys(out@) == cert::certificate_keys(c.data@)
            && cert::user_ids(out@) == cert::user_ids(c.data@) && cert::written(c.data@, out@),
        armored matches Ok(out) ==> cert::parsed_keys(vstd::utf8::encode_utf8(out@))
            == cert::parsed_keys(c.data@) && cert::user_ids(vstd::utf8::encode_utf8(out@))
            == cert::user_ids(c.data@),
{
    cert::certificates_are_read_unless_refused(c.data@);
}

/// A signature is written as one packet: its tag, the length of its body, and its body.
pub proof fn written_signatures(sig: Signature, r: Result<Vec<u8>, Error>)
    requires
        sig.body@.len() <= u32::MAX,
        call_ensures(cert::export_binary_signature, (&sig,), r),
    ensures
        r matches Ok(p) && p@[0] == 0xc2 && (cert::read_packet_length(p@.skip(1)) matches Some(
            (len, octets),
        ) && len == sig.body@.len() && p@.skip((1 + octets) as int) == sig.body@),
{
    cert::signature_is_framed(sig.body@);
}

// ---------------------------------------------------------------------------
// Keys and numbers
// ---------------------------------------------------------------------------

/// A curve is named by its object identifier, and by nothing else.
#[verifier::rlimit(30)]
pub proof fn named_curves(der: &[u8], r: Result<Curve, Error>)
    requires
        call_ensures(der::oid_to_curve, (der,), r),
    ensures
        der::encoded_value(0x06, der::encoded_oid(seq![1nat, 2, 840, 10045, 3, 1, 7])).is_prefix_of(
            der@,
        ) ==> (r matches Ok(c) && c@ == openpgp::CurveView::NistP256),
        der::encoded_value(0x06, der::encoded_oid(seq![1nat, 3, 132, 0, 34])).is_prefix_of(der@)
            ==> (r matches Ok(c) && c@ == openpgp::CurveView::NistP384),
        der::encoded_value(0x06, der::encoded_oid(seq![1nat, 3, 132, 0, 35])).is_prefix_of(der@)
            ==> (r matches Ok(c) && c@ == openpgp::CurveView::NistP521),
        r is Ok ==> ({
            ||| der::encoded_value(
                0x06,
                der::encoded_oid(seq![1nat, 2, 840, 10045, 3, 1, 7]),
            ).is_prefix_of(der@)
            ||| der::encoded_value(0x06, der::encoded_oid(seq![1nat, 3, 132, 0, 34])).is_prefix_of(
                der@,
            )
            ||| der::encoded_value(0x06, der::encoded_oid(seq![1nat, 3, 132, 0, 35])).is_prefix_of(
                der@,
            )
        }),
{
    let a = der::encoded_value(0x06, der::encoded_oid(seq![1nat, 2, 840, 10045, 3, 1, 7]));
    let b = der::encoded_value(0x06, der::encoded_oid(seq![1nat, 3, 132, 0, 34]));
    let c = der::encoded_value(0x06, der::encoded_oid(seq![1nat, 3, 132, 0, 35]));
    let none = Seq::<u8>::empty();
    der::curves_are_named_by_their_identifiers(none, der@);
    if a.is_prefix_of(der@) {
        assert(a + der@.skip(a.len() as int) =~= der@);
        der::curves_are_named_by_their_identifiers(der@.skip(a.len() as int), der@);
    }
    if b.is_prefix_of(der@) {
        assert(b + der@.skip(b.len() as int) =~= der@);
        der::curves_are_named_by_their_identifiers(der@.skip(b.len() as int), der@);
    }
    if c.is_prefix_of(der@) {
        assert(c + der@.skip(c.len() as int) =~= der@);
        der::curves_are_named_by_their_identifiers(der@.skip(c.len() as int), der@);
    }
}

/// The content of an octet string is read back from its encoding, whatever follows it.
pub proof fn read_octet_strings(
    der: &[u8],
    r: Result<Vec<u8>, Error>,
    content: Seq<u8>,
    rest: Seq<u8>,
)
    requires
        call_ensures(der::unwrap_octet_string, (der,), r),
    ensures
        r is Ok ==> der@.len() > 0 && der@[0] == 0x04,
        der@ == seq![0x04u8, content.len() as u8] + content + rest && content.len() < 0x80 ==> (
        r matches Ok(v) && v@ == content),
{
    if der::octet_string(der@) is Ok {
        der::octet_strings_are_tagged(der@);
    }
    if der@ == seq![0x04u8, content.len() as u8] + content + rest && content.len() < 0x80 {
        assert(der@.skip(1)[0] == content.len());
        assert(der@.skip(1).skip(1) =~= content + rest);
        let body = content + rest;
        assert(body.take(content.len() as int) =~= content);
        assert(der@.subrange(2, (2 + content.len()) as int) =~= content);
    }
}

/// The bits of a modulus are counted from its first bit that is set, whatever zeros stand
/// before it.
pub proof fn counted_bits(modulus: &[u8], bits: usize)
    requires
        call_ensures(bytes::rsa_modulus_bit_length, (modulus,), bits),
    ensures
        bytes::be_value(modulus@) == 0 <==> bits == 0,
        bits > 0 ==> vstd::arithmetic::power2::pow2((bits - 1) as nat) <= bytes::be_value(modulus@)
            < vstd::arithmetic::power2::pow2(bits as nat),
{
    bytes::bit_length_bounds(bytes::be_value(modulus@));
}

/// A key has the creation time in whole seconds, the algorithm and the material that it is
/// made from; only a time that does not fit into 32 bits is refused.
pub proof fn made_keys(t: UnixTime, algo: PublicKeyAlgorithm, m: PublicKey, r: Result<Key, Error>)
    requires
        call_ensures(Key::new, (t, algo, m), r),
    ensures
        r is Ok <==> t.secs < 0x1_0000_0000,
        r matches Ok(k) ==> k@.creation_time == t.secs && k@.pk_algo == algo && k@.mpis == m@,
{
}

/// Two keys are the same exactly if they have the same RSA modulus and exponent, or the
/// same point on the same curve.
pub proof fn same_keys(a: PublicKey, b: PublicKey, r: bool)
    requires
        call_ensures(PublicKey::same_material, (&a, &b), r),
    ensures
        a@ matches openpgp::PublicKeyView::RSA { e, n } ==> (r <==> (
        b@ matches openpgp::PublicKeyView::RSA { e: f, n: m } && e == f && n == m)),
        a@ matches openpgp::PublicKeyView::ECDSA { curve, q } ==> (r <==> (
        b@ matches openpgp::PublicKeyView::ECDSA { curve: d, q: p } && curve == d && q == p)),
        a@ is Other ==> !r,
{
}

/// The fingerprint of a key is that of its creation time and its material, and is shown in
/// upper-case hexadecimal notation, all of it; two are the same exactly if their bytes are.
pub proof fn shown_fingerprints(k: Key, f: Fingerprint, shown: String, g: Fingerprint, same: bool)
    requires
        call_ensures(Key::fingerprint, (&k,), f),
        call_ensures(Fingerprint::text, (&f,), shown),
        call_ensures(Fingerprint::same, (&f, &g), same),
    ensures
        f@ == openpgp::v4_fingerprint(k@.creation_time, k@.mpis),
        hexcode::notates(shown@, f@),
        shown@.len() == 2 * f@.len(),
        forall|i: int|
            0 <= i < shown@.len() ==> {
                let c = #[trigger] shown@[i];
                '0' <= c <= '9' || 'A' <= c <= 'F'
            },
        same <==> f@ == g@,
{
    cli::fingerprints_are_shown_whole(f@);
}

/// Texts are trimmed of the white space around them, and numbers are written in decimal
/// digits that read back.
pub proof fn written_texts(
    s: &str,
    before: Seq<char>,
    core: Seq<char>,
    after: Seq<char>,
    out: String,
    n: u64,
    digits: String,
)
    requires
        text::is_blank(before) && text::is_blank(after),
        core.len() > 0 ==> !text::white_space(core[0]) && !text::white_space(core.last()),
        s@ == before + core + after,
        call_ensures(text::trim, (s,), out),
        call_ensures(text::decimal, (n,), digits),
    ensures
        out@ == core,
        text::decimal_value(digits@) == n,
        digits@.len() > 0,
        n > 0 ==> digits@[0] != '0',
{
    text::trimming_keeps_the_core(before, core, after);
    text::decimals_read_back(n as nat);
}

/// A key that is in a certificate which can be read is refused, by either command, only by
/// what is reported of the certificate: that no current signing key has its fingerprint.
pub proof fn refused_signers(
    f: Fingerprint,
    c: Cert,
    name: &str,
    now: UnixTime,
    v: Result<String, Error>,
    job: SignJob,
    r: Result<CheckedJob, Error>,
)
    requires
        call_ensures(verify::verify_signing_key, (&f, &c, name, now), v),
        job.check,
        call_ensures(SignJob::check_signer, (job, Some(&c), name, now), r),
        f@ == openpgp::v4_fingerprint(job.signer.public@.creation_time, job.signer.public@.mpis),
        c.primary@.fingerprint == f@ || exists|i: int|
            0 <= i < c.subkeys@.len() && (#[trigger] c.subkeys@[i])@.fingerprint == f@,
        cert::reading_fault(c.data@) is None,
    ensures
        v is Err || r is Err ==> exists|s: Seq<cert::KeyStatusView>| #[trigger]
            cert::reported(c.data@, now.secs, now.nanos, s) && forall|i: int|
                0 <= i < s.len() && (#[trigger] s[i]).fingerprint == f@ ==> !(s[i].alive
                    && s[i].signing && !s[i].revoked && !s[i].cert_revoked),
{
    verify::keys_are_bound_by_fingerprint(c, f@);
    if v is Err {
        verify::refusals_are_reported(v, f@, c, name@, now);
    } else if r is Err {
        sign::refused_keys_may_not_sign(r, f@, c, name@, now);
    }
}

/// The current signers of a certificate are known exactly if it can be read, and are then
/// those of its keys that are reported to be alive, made for signing and not revoked.
pub proof fn current_signers_are_reported(
    c: Cert,
    now: UnixTime,
    r: Result<Vec<Fingerprint>, Error>,
    f: Seq<u8>,
)
    requires
        call_ensures(cert::current_signers, (&c, now), r),
    ensures
        r is Ok <==> cert::size_fault(c.data@) is None && cert::certificate_keys(c.data@) is Ok,
        r matches Ok(signers) ==> exists|s: Seq<cert::KeyStatusView>| #[trigger]
            cert::reported(c.data@, now.secs, now.nanos, s) && (cert::fingerprint_views(
                signers@,
            ).contains(f) <==> exists|i: int|
                0 <= i < s.len() && (#[trigger] s[i]).fingerprint == f && s[i].alive
                    && s[i].signing && !s[i].revoked && !s[i].cert_revoked),
{
    cert::certificates_are_read_unless_refused(c.data@);
    if let Ok(signers) = r {
        let views = cert::fingerprint_views(signers@);
        let s = choose|s: Seq<cert::KeyStatusView>| #[trigger]
            cert::reported(c.data@, now.secs, now.nanos, s) && views == cert::signing_keys(s);
        cert::signing_keys_may_sign(s, f);
        assert forall|i: int| 0 <= i < s.len() implies (cert::may_sign(#[trigger] s[i]) <==> s[i].alive
            && s[i].signing && !s[i].revoked && !s[i].cert_revoked) by {
            cert::signers_are_alive_and_not_revoked(s[i]);
        }
        if views.contains(f) {
            let i = choose|i: int|
                0 <= i < s.len() && cert::may_sign(#[trigger] s[i]) && s[i].fingerprint == f;
            assert(s[i].fingerprint == f);
        }
    }
}

/// An armored revocation says that it is one, and is the packet again without its armor.
pub proof fn armored_revocations(
    sig: Signature,
    plain: Result<Vec<u8>, Error>,
    r: Result<String, Error>,
    data: &[u8],
    out: Result<Vec<u8>, Error>,
)
    requires
        sig.body@.len() <= u32::MAX,
        call_ensures(cert::export_binary_signature, (&sig,), plain),
        call_ensures(cert::export_armored_signature, (&sig,), r),
        r is Ok ==> data@ == vstd::utf8::encode_utf8(r->Ok_0@),
        call_ensures(cert::remove_armor, (data,), out),
    ensures
        plain is Ok && r is Ok,
        out matches Ok(p) && p@ == plain->Ok_0@,
        ("-----BEGIN PGP PUBLIC KEY BLOCK-----\n"@ + ("Comment: "@
            + "This is a revocation certificate"@ + "\n"@) + "\n"@).is_prefix_of(r->Ok_0@),
{
    let comment = "This is a revocation certificate"@;
    cert::revocations_are_marked();
    reveal_with_fuel(cert::comment_lines, 2);
    assert(seq![comment].drop_last() =~= Seq::empty());
    assert(cert::comment_lines(seq![comment]) =~= "Comment: "@ + comment + "\n"@);
}

// ---------------------------------------------------------------------------
// Messages
// ---------------------------------------------------------------------------

/// Whether a text shows another one.
pub open spec fn shows(m: Seq<char>, part: Seq<char>) -> bool {
    exists|x: Seq<char>, z: Seq<char>| m == #[trigger] between(x, part, z)
}

/// Whether a text shows two others, one behind the other.
pub open spec fn shows_both(m: Seq<char>, a: Seq<char>, b: Seq<char>) -> bool {
    exists|x: Seq<char>, y: Seq<char>, z: Seq<char>|
        m == #[trigger] between(between(x, a, y), b, z)
}

/// A text between two others.
pub open spec fn between(x: Seq<char>, part: Seq<char>, z: Seq<char>) -> Seq<char> {
    x + part + z
}

proof fn shown(m: Seq<char>, x: Seq<char>, part: Seq<char>, z: Seq<char>)
    requires
        m =~= x + part + z,
    ensures
        shows(m, part),
{
    assert(m == between(x, part, z));
}

proof fn both_shown(m: Seq<char>, x: Seq<char>, a: Seq<char>, y: Seq<char>, b: Seq<char>, z: Seq<char>)
    requires
        m =~= x + a + y + b + z,
    ensures
        shows_both(m, a, b),
        shows(m, a),
        shows(m, b),
{
    assert(m == between(between(x, a, y), b, z));
    assert(m =~= between(x, a, y + b + z));
    assert(m == between(x + a + y, b, z));
}

/// What a token says of a signature that it did not make is reported.
pub proof fn failed_signatures_are_reported(s: Pkcs11Signer, e: String, r: Result<SignatureMpis, Error>)
    requires
        call_ensures(Pkcs11Signer::signature, (&s, Err::<Vec<u8>, String>(e)), r),
    ensures
        r matches Err(x) && (x@ matches error::ErrorView::Other(m) && shows(m, e@)),
{
    shown("PKCS#11 C_Sign failed: "@ + e@, "PKCS#11 C_Sign failed: "@, e@, Seq::empty());
}

/// What is said of two primary keys that differ shows both, the published one first; what
/// is said of a subkey that is missing, or there already, shows that subkey.
pub proof fn messages_show_the_fingerprints(a: Seq<u8>, b: Seq<u8>)
    ensures
        revoke::other_primary(a, b) matches error::ErrorView::Other(m) && shows_both(
            m,
            openpgp::upper_hex(a),
            openpgp::upper_hex(b),
        ),
        assemble::primary_mismatch(a, b) matches error::ErrorView::Other(m) && shows_both(
            m,
            openpgp::upper_hex(a),
            openpgp::upper_hex(b),
        ),
        assemble::already_bound(a) matches error::ErrorView::Other(m) && shows(
            m,
            openpgp::upper_hex(a),
        ),
        cli::no_such_subkey(a) matches error::ErrorView::Other(m) && shows(
            m,
            openpgp::upper_hex(a),
        ),
{
    let x = openpgp::upper_hex(a);
    let y = openpgp::upper_hex(b);
    both_shown(
        revoke::other_primary(a, b)->Other_0,
        "primary fingerprint mismatch: --input-cert primary is "@,
        x,
        ", selected HSM primary is "@,
        y,
        " (check --key-label/--creation-time match the input cert)"@,
    );
    both_shown(
        assemble::primary_mismatch(a, b)->Other_0,
        "primary fingerprint mismatch: existing cert has "@,
        x,
        ", HSM-derived primary is "@,
        y,
        " (check --creation-time matches the existing cert)"@,
    );
    shown(
        assemble::already_bound(a)->Other_0,
        "subkey "@,
        x,
        " is already bound in the input cert; re-running cert-export --merge-cert with the same subkey is a no-op and almost certainly a mistake. To rotate, supply a different --subkey-creation-time (or a different subkey entirely) so the new subkey gets a distinct fingerprint."@,
    );
    shown(
        cli::no_such_subkey(a)->Other_0,
        "no subkey in the input cert matches fingerprint "@,
        x,
        Seq::empty(),
    );
}

/// What is said of an option shows what was given: the option and the text of an identifier
/// and why it is no notation, the path of a passphrase file and why it cannot be read, the
/// text of a fingerprint, and that of a timestamp and why it is none.
pub proof fn messages_show_the_options(
    flag: Seq<char>,
    given: Seq<char>,
    fault: hexcode::HexFault,
    file: PinFile,
    cause: Seq<char>,
    n: nat,
)
    ensures
        cli::bad_id(flag, given, fault) matches error::ErrorView::Context { message, cause: c }
            && shows_both(message, flag, given) && c == hexcode::fault_text(fault),
        cli::pin_in(file) matches Err(e) ==> match file.contents {
            Ok(_) => e matches error::ErrorView::Other(m) && shows(m, file.path@),
            Err(why) => e matches error::ErrorView::Context { message, cause: c } && shows(
                message,
                file.path@,
            ) && c == why@,
        },
        cli::not_full(given, n) matches error::ErrorView::Other(m) && shows_both(
            m,
            text::debug_text(given),
            text::decimal_text(n),
        ),
        cli::not_hex(given) matches error::ErrorView::Context { message, .. } && shows(
            message,
            text::debug_text(given),
        ),
        time::bad_creation_time(given, cause) matches error::ErrorView::Context { message, cause: c }
            && shows(message, text::debug_text(given)) && c == cause,
        time::missing_creation_time(flag) matches error::ErrorView::Other(m) && shows(m, flag),
        time::bad_period(given, cause) matches error::ErrorView::Context { message, cause: c }
            && shows(message, text::debug_text(given)) && c == cause,
{
    both_shown(
        "invalid hex in "@ + flag + ": "@ + given,
        "invalid hex in "@,
        flag,
        ": "@,
        given,
        Seq::empty(),
    );
    shown("reading pin file "@ + file.path@, "reading pin file "@, file.path@, Seq::empty());
    shown("pin file "@ + file.path@ + " is empty"@, "pin file "@, file.path@, " is empty"@);
    both_shown(
        cli::not_full(given, n)->Other_0,
        Seq::empty(),
        text::debug_text(given),
        " is not a full OpenPGP fingerprint (got "@,
        text::decimal_text(n),
        " hex chars after stripping whitespace and 0x prefix; need exactly 40); short 16-char key IDs are not accepted because they are not collision-resistant"@,
    );
    shown(
        cli::not_hex(given)->message,
        "parsing "@,
        text::debug_text(given),
        " as a 40-hex-char fingerprint"@,
    );
    shown(
        time::bad_creation_time(given, cause)->message,
        "invalid --creation-time "@,
        text::debug_text(given),
        "; use RFC 3339, e.g. 2026-04-30T16:29:30Z"@,
    );
    shown(
        time::missing_creation_time(flag)->Other_0,
        Seq::empty(),
        flag,
        " is required: the fingerprint covers the creation time, so that it must be the same value every time"@,
    );
    shown(
        time::bad_period(given, cause)->message,
        "invalid --validity-period "@,
        text::debug_text(given),
        "; use Ny, Nw, Nd, or Nh (e.g. 5y, 60d)"@,
    );
}

/// What is said of a file shows its path, and why it cannot be written.
pub proof fn messages_show_the_file(path: Seq<char>, cause: Seq<char>, failure: output::WriteFailure)
    ensures
        output::overwrite_refused(path) matches error::ErrorView::Other(m) && shows(m, path),
        output::existence_unknown(path, cause) matches error::ErrorView::Context { message, cause: c }
            && shows(message, path) && c == cause,
        output::write_refused(path, failure) matches error::ErrorView::Context { message, .. }
            ==> shows(message, path),
{
    shown(
        output::overwrite_refused(path)->Other_0,
        "refusing to overwrite existing file "@,
        path,
        "; pass --force to overwrite"@,
    );
    shown(
        output::existence_unknown(path, cause)->message,
        "checking whether "@,
        path,
        " already exists"@,
    );
    shown("opening "@ + path + " for writing"@, "opening "@, path, " for writing"@);
    shown("writing to "@ + path, "writing to "@, path, Seq::empty());
}

/// What is said of a search shows what was looked for, of a key that cannot be used what is
/// wrong with it, and of a time that OpenPGP cannot express that time.
pub proof fn messages_show_the_search(
    slots: Seq<Slot>,
    label: Seq<char>,
    handles: Seq<u64>,
    selector: session::SelectorView,
    oid: Seq<u8>,
    t: UnixTime,
    a: KeyAlgo,
    cause: Seq<char>,
)
    ensures
        session::slot_by_label(slots, label) matches Err(error::ErrorView::KeyNotFound(m)) ==> shows(
            m,
            text::debug_text(label),
        ),
        session::single_key(handles, selector) matches Err(error::ErrorView::KeyNotFound(m))
            ==> shows(m, session::selector_text(selector)),
        selector matches session::SelectorView::Label(l) ==> shows(
            session::selector_text(selector),
            text::debug_text(l),
        ),
        selector matches session::SelectorView::Id(i) ==> shows(
            session::selector_text(selector),
            text::byte_list_text(i),
        ),
        oid.len() < 0x80 ==> (der::named_curve(der::encoded_value(0x06, oid)) matches Err(m)
            ==> shows(m, hexcode::hex_notation(oid))),
        openpgp::unrepresentable_time(t) matches error::ErrorView::Other(m) && shows(
            m,
            text::decimal_text(t.secs as nat),
        ),
        sign::wrong_algo(a) matches error::ErrorView::Other(m) && shows(m, sign::algo_text(a)),
        sign::signer_refused(cause) matches error::ErrorView::Context { cause: c, .. } && c == cause,
        cert::parsing_error(cause) matches error::ErrorView::Other(m) && shows(m, cause),
{
    shown(
        "no token matched label "@ + text::debug_text(label),
        "no token matched label "@,
        text::debug_text(label),
        Seq::empty(),
    );
    shown(
        "no signing key matched selector "@ + session::selector_text(selector),
        "no signing key matched selector "@,
        session::selector_text(selector),
        Seq::empty(),
    );
    match selector {
        session::SelectorView::Label(l) => {
            shown(session::selector_text(selector), "Label("@, text::debug_text(l), ")"@);
        },
        session::SelectorView::Id(i) => {
            shown(session::selector_text(selector), "Id("@, text::byte_list_text(i), ")"@);
        },
        _ => {},
    }
    if oid.len() < 0x80 {
        let der = der::encoded_value(0x06, oid);
        assert(der[1] == oid.len());
        assert(der.subrange(2, (2 + oid.len()) as int) =~= oid);
        shown(
            "unsupported EC OID: "@ + hexcode::hex_notation(oid),
            "unsupported EC OID: "@,
            hexcode::hex_notation(oid),
            Seq::empty(),
        );
    }
    shown(
        openpgp::unrepresentable_time(t)->Other_0,
        "Invalid argument: time "@,
        text::decimal_text(t.secs as nat),
        " s after the epoch is not representable in OpenPGP"@,
    );
    shown(
        sign::wrong_algo(a)->Other_0,
        "refusing to sign: the selected key is not "@,
        sign::algo_text(a),
        " as --require-key-algo demands"@,
    );
    shown(cert::parsing_error(cause)->Other_0, "parsing cert: "@, cause, Seq::empty());
}

/// What is said of a URI shows the value that is wrong in it, and of an unexpected length
/// both what was expected and what came.
pub proof fn messages_show_the_values(
    s: Seq<char>,
    fault: uri::PercentFault,
    public: openpgp::KeyView,
    raw: Seq<u8>,
    attrs: Seq<token::AttributeView>,
)
    ensures
        shows(uri::percent_fault_text(s, fault), text::debug_text(s)),
        shows(uri::bad_type_text(s), text::debug_text(s)),
        public.pk_algo == PublicKeyAlgorithm::ECDSA ==> (public.mpis matches openpgp::PublicKeyView::ECDSA {
            curve,
            ..
        } ==> (openpgp::coordinate_size(curve) matches Some(n) ==> (raw.len() != 2 * n ==> (
        signer::encoded_signature(public, raw) matches Err(error::ErrorView::Other(m))
            && shows_both(m, text::decimal_text(raw.len()), text::decimal_text(2 * n)))))),
        forall|i: int| #[trigger]
            token::is_last(attrs, i, AttributeType::Modulus) && bytes::bit_length(
                bytes::be_value(attrs[i]->Bytes_1),
            ) < 2048 ==> (signer::rsa_public(attrs) matches Err(
                error::ErrorView::UnsupportedKeyType(m),
            ) && shows(
                m,
                text::decimal_text(bytes::bit_length(bytes::be_value(attrs[i]->Bytes_1))),
            )),
{
    match fault {
        uri::PercentFault::Truncated => {
            shown(
                uri::percent_fault_text(s, fault),
                "truncated percent-encoded sequence in URI value "@,
                text::debug_text(s),
                " (need two hex digits after '%')"@,
            );
        },
        uri::PercentFault::BadDigit(b) => {
            shown(
                uri::percent_fault_text(s, fault),
                "invalid hex digit after '%' in URI value "@,
                text::debug_text(s),
                ": "@ + text::debug_char_text(b as char),
            );
        },
    }
    shown(
        uri::bad_type_text(s),
        "PKCS#11 URI attribute type="@,
        text::debug_text(s),
        " is incompatible with sq-pkcs11; sq-pkcs11 always operates on private signing keys, so only type=private (or omitting type=) is accepted"@,
    );
    if public.pk_algo == PublicKeyAlgorithm::ECDSA {
        if let openpgp::PublicKeyView::ECDSA { curve, q } = public.mpis {
            if let Some(n) = openpgp::coordinate_size(curve) {
                if raw.len() != 2 * n {
                    both_shown(
                        signer::encoded_signature(public, raw)->Err_0->Other_0,
                        "Invalid argument: "@ + ("ECDSA signature on curve "@ + openpgp::curve_text(
                            curve,
                        ) + ": token returned "@),
                        text::decimal_text(raw.len()),
                        " bytes, expected "@,
                        text::decimal_text(2 * n),
                        Seq::empty(),
                    );
                }
            }
        }
    }
    token::values_are_the_last(attrs, AttributeType::Modulus);
    assert forall|i: int| #[trigger]
        token::is_last(attrs, i, AttributeType::Modulus) && bytes::bit_length(
            bytes::be_value(attrs[i]->Bytes_1),
        ) < 2048 implies (signer::rsa_public(attrs) matches Err(
        error::ErrorView::UnsupportedKeyType(m),
    ) && shows(m, text::decimal_text(bytes::bit_length(bytes::be_value(attrs[i]->Bytes_1))))) by {
        let bits = bytes::bit_length(bytes::be_value(attrs[i]->Bytes_1));
        shown(
            "RSA modulus is "@ + text::decimal_text(bits) + " bits; minimum supported is "@
                + text::decimal_text(2048),
            "RSA modulus is "@,
            text::decimal_text(bits),
            " bits; minimum supported is "@ + text::decimal_text(2048),
        );
    }
}

/// The names of the key algorithms are those of the command line.
pub proof fn algorithms_have_their_names(a: KeyAlgo)
    ensures
        sign::algo_text(a) == (match a {
            KeyAlgo::Rsa2048 => "rsa2048"@,
            KeyAlgo::Rsa3072 => "rsa3072"@,
            KeyAlgo::Rsa4096 => "rsa4096"@,
            KeyAlgo::P256 => "p256"@,
            KeyAlgo::P384 => "p384"@,
            KeyAlgo::P521 => "p521"@,
        }),
{
}

/// What is said of an error to the user tells its kind, and what caused it is known where
/// something did.
pub proof fn errors_are_told(e: Error, said: String, cause: Option<&str>)
    requires
        call_ensures(Error::to_string, (&e,), said),
        call_ensures(Error::cause, (&e,), cause),
    ensures
        e@ matches error::ErrorView::Pkcs11(m) ==> said@ == "PKCS#11: "@ + m,
        e@ matches error::ErrorView::OpenPgp(m) ==> said@ == "OpenPGP: "@ + m,
        e@ matches error::ErrorView::KeyNotFound(m) ==> said@ == "key not found: "@ + m,
        e@ matches error::ErrorView::UnsupportedKeyType(m) ==> said@
            == "unsupported key type on HSM: "@ + m,
        e@ matches error::ErrorView::Io(m) ==> said@ == "I/O: "@ + m,
        e@ matches error::ErrorView::Other(m) ==> said@ == m,
        e@ matches error::ErrorView::AmbiguousKey { count } ==> shows(
            said@,
            text::decimal_text(count),
        ),
        e@ matches error::ErrorView::Context { message, cause: c } ==> said@ == message && (
        cause matches Some(x) && x@ == c),
        e@ !is Context ==> cause is None,
{
    if let error::ErrorView::AmbiguousKey { count } = e@ {
        shown(
            said@,
            "ambiguous slot selection: "@,
            text::decimal_text(count),
            " token slots found; use --key-uri with token=<label> to identify which token to authenticate against (e.g. pkcs11:token=my-softcard;object=my-key;type=private)"@,
        );
    }
}

// ---------------------------------------------------------------------------
// When commands go on
// ---------------------------------------------------------------------------

/// A file at the place of the output stops every command before anything else is looked
/// at, unless it is not to be looked for.
pub proof fn existing_files_stop_every_command(
    path: &str,
    found: Option<Result<bool, String>>,
    sign_plan: SignPlan,
    signed: Result<(Progress, SignRest), Error>,
    export_args: CertExportArgs,
    exported: Result<(Progress, ExportPrimary), Error>,
    revoke_args: RevokeArgs,
    destination: Destination,
    now: UnixTime,
    revoked: Result<(Progress, RevokeTerms), Error>,
    command: SubkeyRevoke,
    passed: Result<SubkeyTarget, Error>,
)
    requires
        call_ensures(SignPlan::set_out, (sign_plan, path, found), signed),
        call_ensures(export::cmd_cert_export, (export_args, path, found), exported),
        call_ensures(revoke::cmd_cert_revoke, (revoke_args, &destination, now, path, found), revoked),
        call_ensures(SubkeyRevoke::passed, (command, path, found), passed),
    ensures
        found == Some(Ok::<bool, String>(true)) ==> {
            let e = output::overwrite_refused(path@);
            error::fails_with(signed, e) && error::fails_with(exported, e) && error::fails_with(
                revoked,
                e,
            ) && error::fails_with(passed, e)
        },
        found matches Some(Err(cause)) ==> {
            let e = output::existence_unknown(path@, cause@);
            error::fails_with(signed, e) && error::fails_with(exported, e) && error::fails_with(
                revoked,
                e,
            ) && error::fails_with(passed, e)
        },
{
    access::found_files_stop_the_command(path@, found);
}

/// `cert-export` goes on exactly if the options of the primary key can be read, and then
/// exactly if those of the subkey can, where one is selected.
pub proof fn cert_export_goes_on(
    args: CertExportArgs,
    path: &str,
    a: Result<(Progress, ExportPrimary), Error>,
    rest: ExportPrimary,
    signer: Pkcs11Signer,
    b: Result<(Option<Progress>, ExportSubkey), Error>,
)
    requires
        call_ensures(export::cmd_cert_export, (args, path, None::<Result<bool, String>>), a),
        call_ensures(ExportPrimary::with_primary, (rest, signer), b),
    ensures
        a is Ok <==> access::primary_access(args.primary.access) is Ok && (
        args.primary.creation_time matches Some(ts) && (time::rfc3339(ts@) matches Ok((secs, nanos))
            && openpgp::clock_covers(secs as int) && (args.primary.no_expiration
            || time::validity_from(args.primary.validity_period@, secs) is Ok))),
        access::access_of(rest.subkey.access, "--subkey-id"@) matches Ok(None) ==> (b matches Ok(
            (p, last),
        ) && p is None && last.subkey is None),
        access::access_of(rest.subkey.access, "--subkey-id"@) is Err ==> b is Err,
        access::access_of(rest.subkey.access, "--subkey-id"@) matches Ok(Some(_)) ==> (b is Ok <==> (
        rest.subkey.creation_time matches Some(ts) && (time::rfc3339(ts@) matches Ok((secs, nanos))
            && openpgp::clock_covers(secs as int) && (rest.subkey.no_expiration
            || time::validity_from(rest.subkey.validity_period@, secs) is Ok)))),
{
    access::found_files_stop_the_command(path@, None);
    export::tiers_are_the_options(args.primary);
    export::times_are_as_stated(args.primary, "--creation-time"@);
    export::tiers_are_the_options(rest.subkey);
    export::times_are_as_stated(rest.subkey, "--subkey-creation-time"@);
}

/// Both commands that revoke go on exactly if a key is selected, its creation time is
/// stated, and the times can be read.
pub proof fn revocations_go_on(
    args: RevokeArgs,
    destination: Destination,
    now: UnixTime,
    path: &str,
    fingerprint: String,
    a: Result<(Progress, RevokeTerms), Error>,
    b: Result<SubkeyRevoke, Error>,
)
    requires
        call_ensures(
            revoke::cmd_cert_revoke,
            (args, &destination, now, path, None::<Result<bool, String>>),
            a,
        ),
        call_ensures(revoke::cmd_subkey_revoke, (args, fingerprint, destination, now), b),
    ensures
        a is Ok <==> {
            &&& access::primary_access(args.access) is Ok
            &&& args.creation_time matches Some(ts) && (time::rfc3339(ts@) matches Ok((secs, nanos))
                && openpgp::clock_covers(secs as int))
            &&& args.revocation_time matches Some(ts) ==> (time::rfc3339(ts@) matches Ok(
                (secs, nanos),
            ) && openpgp::clock_covers(secs as int))
        },
        b is Ok <==> a is Ok,
        b matches Ok(x) ==> x.fingerprint@ == fingerprint@ && x.destination == destination
            && x.terms@ == (a->Ok_0).1@,
{
    access::found_files_stop_the_command(path@, None);
    revoke::terms_are_the_options(args, now);
}

/// A warning says what the stated and the published creation time are.
pub proof fn warnings_state_both_times(
    rest: SignRest,
    signer: Pkcs11Signer,
    c: Cert,
    job: SignJob,
)
    requires
        call_ensures(SignRest::prepare, (rest, signer, Some(&c)), Ok::<SignJob, Error>(job)),
    ensures
        job.warning matches Some(w) ==> (rest.creation_time matches Some(t) && (
        sign::published_key(c, signer.public@.mpis) matches Some(k) && shows_both(
            w@,
            text::decimal_text(t.secs as nat),
            text::decimal_text(k.creation_time as nat),
        ))),
{
    if let Some(w) = job.warning {
        let m = signer.public@.mpis;
        sign::other_times_are_warned_of(rest.creation_time, Some(&c), m);
        both_shown(
            w@,
            "warning: --creation-time is "@,
            text::decimal_text(rest.creation_time->0.secs as nat),
            " s after the epoch, but the key in --input-cert was created "@,
            text::decimal_text(sign::published_key(c, m)->0.creation_time as nat),
            " s after the epoch"@,
        );
    }
}

// ---------------------------------------------------------------------------
// Values that are read
// ---------------------------------------------------------------------------

/// Every text is read as the URI that it is, or refused as none.
pub proof fn uris_are_read_as_such(s: &str, r: Result<Pkcs11Uri, Error>)
    requires
        call_ensures(Pkcs11Uri::parse_text, (s,), r),
    ensures
        r is Ok <==> uri::uri_of(s@) is Ok,
        r matches Ok(u) ==> uri::uri_of(s@) == Ok::<uri::UriView, Seq<char>>(u@),
{
}

/// The values of a URI are read as they are decoded, and refused exactly if they cannot be.
pub proof fn values_are_read_as_such(
    s: &str,
    a: Result<Vec<u8>, Error>,
    b: Result<String, Error>,
    c: Result<Vec<u8>, Error>,
)
    requires
        call_ensures(uri::percent_decode_bytes, (s,), a),
        call_ensures(uri::percent_decode, (s,), b),
        call_ensures(uri::parse_id_bytes, (s,), c),
    ensures
        a is Ok <==> uri::percent_decoded(vstd::utf8::encode_utf8(s@)) is Ok,
        a matches Ok(v) ==> uri::percent_decoded(vstd::utf8::encode_utf8(s@)) == Ok::<
            Seq<u8>,
            uri::PercentFault,
        >(v@),
        b is Ok <==> (uri::percent_decoded(vstd::utf8::encode_utf8(s@)) matches Ok(v)
            && vstd::utf8::valid_utf8(v)),
        b matches Ok(t) ==> t@ == vstd::utf8::decode_utf8(a->Ok_0@),
        s@.contains('%') ==> (c is Ok <==> a is Ok) && (c matches Ok(v) ==> v@ == a->Ok_0@),
        !s@.contains('%') ==> (c is Ok <==> hexcode::hex_decoded(vstd::utf8::encode_utf8(s@)) is Ok)
            && (c matches Ok(v) ==> hexcode::hex_decoded(vstd::utf8::encode_utf8(s@)) == Ok::<
            Seq<u8>,
            hexcode::HexFault,
        >(v@)),
{
}

/// The material of a key is read from its attributes: of RSA keys by the modulus and the
/// exponent, of elliptic-curve keys by the parameters and the point.
pub proof fn material_is_read_by_type(
    kt: KeyType,
    attrs: Vec<Attribute>,
    any: Result<Key, Error>,
    rsa: Result<Key, Error>,
    ec: Result<Key, Error>,
)
    requires
        call_ensures(signer::read_public_key, (kt, &attrs), any),
        call_ensures(signer::read_rsa_public, (&attrs,), rsa),
        call_ensures(signer::read_ec_public, (&attrs,), ec),
    ensures
        ({
            let views = token::attribute_views(attrs@);
            &&& rsa is Ok <==> signer::rsa_public(views) is Ok
            &&& rsa matches Ok(k) ==> signer::rsa_public(views) == Ok::<
                openpgp::KeyView,
                error::ErrorView,
            >(k@)
            &&& ec is Ok <==> signer::ec_public(views) is Ok
            &&& ec matches Ok(k) ==> signer::ec_public(views) == Ok::<
                openpgp::KeyView,
                error::ErrorView,
            >(k@)
            &&& kt == KeyType::RSA ==> (any is Ok <==> rsa is Ok) && (any matches Ok(k) ==> k@
                == rsa->Ok_0@)
            &&& kt == KeyType::EC ==> (any is Ok <==> ec is Ok) && (any matches Ok(k) ==> k@
                == ec->Ok_0@)
            &&& kt != KeyType::RSA && kt != KeyType::EC ==> any is Err
        }),
{
}

/// A point is accepted exactly if it is uncompressed and has the length of its curve, and
/// the numbers of a signature have that of a coordinate.
pub proof fn points_and_signatures_have_their_length(
    curve: Curve,
    point: &[u8],
    a: Result<(), Error>,
    b: Result<usize, Error>,
    key: Key,
    raw: &[u8],
    sig: Result<SignatureMpis, Error>,
)
    requires
        call_ensures(signer::validate_uncompressed_ec_point, (&curve, point), a),
        call_ensures(signer::expected_ecdsa_signature_len, (&curve,), b),
        call_ensures(signer::encode_signature, (&key, raw), sig),
    ensures
        a is Ok <==> (openpgp::coordinate_size(curve@) matches Some(n) && point@.len() == 1 + 2 * n
            && point@[0] == 0x04),
        b is Ok <==> curve@ == openpgp::CurveView::NistP256 || curve@
            == openpgp::CurveView::NistP384 || curve@ == openpgp::CurveView::NistP521,
        curve@ == openpgp::CurveView::NistP256 ==> b == Ok::<usize, Error>(64),
        curve@ == openpgp::CurveView::NistP384 ==> b == Ok::<usize, Error>(96),
        curve@ == openpgp::CurveView::NistP521 ==> b == Ok::<usize, Error>(132),
        sig is Ok <==> signer::encoded_signature(key@, raw@) is Ok,
        sig matches Ok(x) ==> signer::encoded_signature(key@, raw@) == Ok::<
            SignatureMpisView,
            error::ErrorView,
        >(x@),
{
    signer::points_are_uncompressed(curve@, point@);
    signer::coordinates_fit_the_field(curve@);
}

/// A length in DER is read in its short form, and in its long form of any number of bytes
/// that a machine word has; what follows it is handed back.
pub proof fn lengths_are_read(b: &[u8], r: Result<(usize, &[u8]), Error>, field: Seq<u8>, rest: Seq<u8>)
    requires
        call_ensures(der::parse_der_length, (b,), r),
    ensures
        b@.len() > 0 && b@[0] < 0x80 ==> (r matches Ok((n, tail)) && n == b@[0] && tail@ == b@.skip(
            1,
        )),
        0 < field.len() && 8 * field.len() <= usize::BITS && b@ == seq![
            (0x80 + field.len()) as u8,
        ] + field + rest ==> (r matches Ok((n, tail)) && n == bytes::be_value(field) && tail@
            == rest),
        b@.len() == 0 ==> r is Err,
{
    if 0 < field.len() && 8 * field.len() <= usize::BITS && b@ == seq![(0x80 + field.len()) as u8]
        + field + rest {
        der::long_lengths_are_read(field, rest);
        assert(b@.skip((field.len() + 1) as int) =~= rest);
    }
}

/// The years, months and days of the calendar.
pub proof fn calendars_agree(y: u64, m: u64, l: bool, days: u64, start: u64, later: u64)
    requires
        1 <= m <= 12,
        1970 <= y <= 1_000_000,
        call_ensures(calendar::leap, (y,), l),
        call_ensures(calendar::month_days, (y, m), days),
        call_ensures(calendar::year_start, (y,), start),
        call_ensures(calendar::year_start, ((y + 1) as u64,), later),
    ensures
        l <==> y % 4 == 0 && (y % 100 != 0 || y % 400 == 0),
        m == 2 ==> days == (if l {
            29u64
        } else {
            28u64
        }),
        m == 4 || m == 6 || m == 9 || m == 11 ==> days == 30,
        m != 2 && m != 4 && m != 6 && m != 9 && m != 11 ==> days == 31,
        later - start == (if l {
            366int
        } else {
            365int
        }),
        y == 1970 ==> start == 0,
{
    calendar::months_have_their_days(y as int, m as int);
    calendar::years_count_their_days(y as int);
    calendar::years_count_their_days(y + 1);
    calendar::years_follow_each_other(y as int);
}

/// A certificate has a subkey exactly if one of its subkeys has the fingerprint.
pub proof fn subkeys_are_found(c: Cert, f: Fingerprint, r: bool)
    requires
        call_ensures(assemble::has_subkey, (&c, &f), r),
    ensures
        r <==> exists|i: int|
            0 <= i < c.subkeys@.len() && (#[trigger] c.subkeys@[i])@.fingerprint == f@,
{
}

/// What is put into armor is found in it again, with comments of one line each.
pub proof fn armor_is_removed_again(
    packets: Vec<u8>,
    comments: Vec<String>,
    armored: String,
    data: &[u8],
    r: Result<Vec<u8>, Error>,
)
    requires
        packets@.len() > 0,
        cert::single_lines(cert::string_views(comments@)),
        call_ensures(cert::armor_cert, (&packets, &comments), armored),
        data@ == vstd::utf8::encode_utf8(armored@),
        call_ensures(cert::remove_armor, (data,), r),
    ensures
        r matches Ok(v) && v@ == packets@,
{
}

/// Weeks, days, hours and years can be read, and so can every text of up to nine
/// characters.
pub proof fn ordinary_periods_can_be_read(s: &str, r: bool)
    requires
        call_ensures(time::can_parse_validity, (s,), r),
    ensures
        time::in_years(text::trimmed(s@)) ==> r,
        !s@.contains('n') && !s@.contains('u') && !s@.contains('m') && !s@.contains('µ')
            && !s@.contains('.') ==> r,
        text::trimmed(s@).len() <= 9 ==> r,
{
    time::whole_units_are_readable(s@);
    if text::trimmed(s@).len() <= 9 {
        time::short_texts_are_readable(s@);
    }
}

/// What is taken out of a value is what is in it.
pub proof fn parts_are_handed_out(
    p: Period,
    secs: u64,
    s: Pkcs11Signer,
    k: &Key,
    checked: CheckedJob,
    job: SignJob,
    epoch: UnixTime,
)
    requires
        call_ensures(Period::as_secs, (&p,), secs),
        call_ensures(Pkcs11Signer::public_key, (&s,), k),
        call_ensures(CheckedJob::into_job, (checked,), job),
        call_ensures(UnixTime::epoch, (), epoch),
    ensures
        secs == p.secs,
        *k == s.public,
        job == checked.job(),
        epoch.secs == 0 && epoch.nanos == 0,
{
}

/// A revocation is planned exactly if the creation time of the primary key fits into 32
/// bits; it states the reason, the message and the time that it is made from, and is of the
/// primary key itself or of the given subkey.
pub proof fn revocations_are_planned_as_given(
    own: CertRevocationSpec,
    a: Result<RevocationPlan, Error>,
    sub: SubkeyRevocationSpec,
    b: Result<RevocationPlan, Error>,
)
    requires
        call_ensures(assemble::build_cert_revocation, (own,), a),
        call_ensures(assemble::build_subkey_revocation, (sub,), b),
    ensures
        a is Ok <==> own.primary.creation_time.secs < 0x1_0000_0000,
        b is Ok <==> sub.primary.creation_time.secs < 0x1_0000_0000,
        a matches Ok(plan) ==> {
            &&& plan.reason == own.reason
            &&& plan.message@ == own.message@
            &&& plan.revocation_time == own.revocation_time
            &&& plan.subkey is None
            &&& plan.primary.priv_handle == own.primary.signer.priv_handle
            &&& plan.primary.key_type == own.primary.signer.key_type
            &&& plan.primary.public@.mpis == own.primary.signer.public@.mpis
            &&& plan.primary.public@.pk_algo == own.primary.signer.public@.pk_algo
            &&& plan.primary.public@.creation_time == own.primary.creation_time.secs
            &&& plan.hash == cert::matching_hash(own.primary.signer.public@)
        },
        b matches Ok(plan) ==> {
            &&& plan.reason == sub.reason
            &&& plan.message@ == sub.message@
            &&& plan.revocation_time == sub.revocation_time
            &&& plan.subkey matches Some(k) && k@ == sub.subkey_public@
            &&& plan.primary.priv_handle == sub.primary.signer.priv_handle
            &&& plan.primary.key_type == sub.primary.signer.key_type
            &&& plan.primary.public@.mpis == sub.primary.signer.public@.mpis
            &&& plan.primary.public@.pk_algo == sub.primary.signer.public@.pk_algo
            &&& plan.primary.public@.creation_time == sub.primary.creation_time.secs
            &&& plan.hash == cert::matching_hash(sub.primary.signer.public@)
        },
{
    if let Ok(plan) = a {
        assemble::revocations_state_what_was_given(plan, own, sub);
    }
    if let Ok(plan) = b {
        assemble::revocations_state_what_was_given(plan, own, sub);
    }
}

/// A certificate is made of all the keys that are handed over, the first one being the
/// primary key, and holds the bytes that they were read from.
pub proof fn handed_over_keys(raw: Vec<cert::RawKey>, data: Vec<u8>, r: Result<Cert, Error>)
    requires
        raw@.len() > 0,
        call_ensures(cert::cert_of_keys, (&raw, data), r),
    ensures
        r is Ok <==> forall|i: int|
            0 <= i < raw@.len() ==> cert::cert_key_of((#[trigger] raw@[i])@) is Ok,
        r matches Ok(c) ==> {
            &&& c.data@ == data@
            &&& c.subkeys@.len() == raw@.len() - 1
            &&& cert::cert_key_of(raw@[0]@) == Ok::<cert::CertKeyView, error::ErrorView>(c.primary@)
            &&& forall|i: int|
                0 <= i < c.subkeys@.len() ==> cert::cert_key_of(raw@[i + 1]@) == Ok::<
                    cert::CertKeyView,
                    error::ErrorView,
                >((#[trigger] c.subkeys@[i])@)
        },
{
    let views = cert::raw_views(raw@);
    cert::every_key_is_read(views);
    assert forall|i: int| 0 <= i < raw@.len() implies views[i] == (#[trigger] raw@[i])@ by {}
    if let Ok(c) = r {
        let keys = cert::cert_keys_of(views)->Ok_0;
        cert::the_first_key_is_primary(c, data@, keys);
        assert(cert::cert_key_of(views[0]) == Ok::<cert::CertKeyView, error::ErrorView>(keys[0]));
        assert(views[0] == raw@[0]@);
        assert forall|i: int| 0 <= i < c.subkeys@.len() implies cert::cert_key_of(raw@[i + 1]@)
            == Ok::<cert::CertKeyView, error::ErrorView>((#[trigger] c.subkeys@[i])@) by {
            assert(views[i + 1] == raw@[i + 1]@);
            assert(c.subkeys@[i]@ == keys[i + 1]);
        }
        assert forall|i: int| 0 <= i < raw@.len() implies cert::cert_key_of((#[trigger] raw@[i])@)
            is Ok by {
            assert(views[i] == raw@[i]@);
        }
    } else {
        let i = choose|i: int| 0 <= i < views.len() && cert::cert_key_of(#[trigger] views[i]) is Err;
        assert(cert::cert_key_of(raw@[i]@) is Err);
    }
}

/// A certificate prefers the longer hash and the longer key, and nothing weak.
pub proof fn stated_preferences(hashes: Vec<HashAlgorithm>, symmetric: Vec<SymmetricAlgorithm>)
    requires
        call_ensures(cert::preferred_hashes, (), hashes),
        call_ensures(cert::preferred_symmetric, (), symmetric),
    ensures
        hashes@.len() == 3 && hashes@[0] == HashAlgorithm::SHA512 && hashes@[1]
            == HashAlgorithm::SHA384 && hashes@[2] == HashAlgorithm::SHA256,
        symmetric@.len() == 2 && symmetric@[0] == SymmetricAlgorithm::AES256 && symmetric@[1]
            == SymmetricAlgorithm::AES128,
{
}

/// A prefix and a digest of the size of the hash make up the `DigestInfo` of that hash.
pub proof fn prefixes_make_up_the_digest_info(
    hash: HashAlgorithm,
    r: Result<Vec<u8>, Error>,
    digest: Seq<u8>,
)
    requires
        call_ensures(der::digest_info_prefix, (hash,), r),
    ensures
        r is Ok <==> hash == HashAlgorithm::SHA256 || hash == HashAlgorithm::SHA384 || hash
            == HashAlgorithm::SHA512,
        hash == HashAlgorithm::SHA256 && digest.len() == 32 ==> r->Ok_0@ + digest
            == der::digest_info(1, digest),
        hash == HashAlgorithm::SHA384 && digest.len() == 48 ==> r->Ok_0@ + digest
            == der::digest_info(2, digest),
        hash == HashAlgorithm::SHA512 && digest.len() == 64 ==> r->Ok_0@ + digest
            == der::digest_info(3, digest),
{
    signer::requests_are_for_the_digest(hash, digest);
}

/// A hexadecimal digit has its value in either case; a coordinate the size of its field;
/// and a key can be worked with if it is RSA, or on a NIST curve, and small enough.
pub proof fn small_parts(
    b: u8,
    v: Option<u8>,
    curve: Curve,
    size: Option<usize>,
    key: Key,
    usable: bool,
)
    requires
        call_ensures(hexcode::hex_digit_value, (b,), v),
        call_ensures(Curve::coordinate_size, (&curve,), size),
        call_ensures(Key::is_usable, (&key,), usable),
    ensures
        0x30 <= b <= 0x39 ==> v == Some((b - 0x30) as u8),
        0x41 <= b <= 0x46 ==> v == Some((b - 55) as u8),
        0x61 <= b <= 0x66 ==> v == Some((b - 87) as u8),
        b < 0x30 || 0x39 < b < 0x41 || 0x46 < b < 0x61 || 0x66 < b ==> v is None,
        curve@ == openpgp::CurveView::NistP256 <==> size == Some(32usize),
        curve@ == openpgp::CurveView::NistP384 <==> size == Some(48usize),
        curve@ == openpgp::CurveView::NistP521 <==> size == Some(66usize),
        key@.mpis matches openpgp::PublicKeyView::RSA { e, n } ==> (usable <==> key@.pk_algo
            == PublicKeyAlgorithm::RSAEncryptSign && e.len() + n.len() + 10 <= 0xffff),
        key@.mpis matches openpgp::PublicKeyView::ECDSA { curve: c, q } ==> (usable <==> key@.pk_algo
            == PublicKeyAlgorithm::ECDSA && openpgp::coordinate_size(c) is Some && q.len() + 17
            <= 0xffff),
        key@.mpis is Other ==> !usable,
{
    hexcode::digits_have_their_values(b);
    signer::coordinates_fit_the_field(curve@);
    openpgp::usable_keys_have_fingerprints(key@);
}

/// What is said of a file that is there, or that could not be written, shows its path.
pub proof fn refused_files(path: &str, a: Error, failure: output::WriteFailure, b: Error)
    requires
        call_ensures(output::refuse_overwrite, (path,), a),
        call_ensures(output::write_or_refuse, (path, failure), b),
    ensures
        a@ matches error::ErrorView::Other(m) && shows(m, path@),
        failure is AlreadyExists ==> b@ == a@,
        failure matches output::WriteFailure::Open(e) ==> (b@ matches error::ErrorView::Context {
            message,
            cause,
        } && shows(message, path@) && cause == e@),
        failure matches output::WriteFailure::Write(e) ==> (b@ matches error::ErrorView::Context {
            message,
            cause,
        } && shows(message, path@) && cause == e@),
{
    messages_show_the_file(path@, Seq::empty(), failure);
    output::late_files_are_refused(path@, failure);
}

/// The names of key types and the notation of return values.
pub proof fn shown_types_and_values(kt: KeyType, name: String, n: u64, hex: String)
    requires
        call_ensures(token::key_type_name, (kt,), name),
        call_ensures(text::padded_hex, (n,), hex),
    ensures
        name@ == token::listed_key_type(kt),
        kt == KeyType::RSA ==> "RSA"@.is_prefix_of(name@),
        kt == KeyType::EC ==> "EC (ECDSA"@.is_prefix_of(name@),
        hex@.len() >= 10 && hex@[0] == '0' && hex@[1] == 'x' && hexcode::hex_number(hex@.skip(2))
            == n,
{
    token::listed_types_go_by_their_names(kt);
    hexcode::return_values_read_back(n as nat);
}

/// What is said of public key objects, of points and of key types that cannot be used shows
/// how many there are, how long the point is and should be, and which type it is; and what
/// is said of a key that may not sign shows when.
pub proof fn messages_show_what_is_wrong(
    candidates: Seq<u64>,
    curve: openpgp::CurveView,
    point: Seq<u8>,
    kt: KeyType,
    f: Seq<u8>,
    c: Cert,
    name: Seq<char>,
    signers: Seq<Seq<u8>>,
    now: UnixTime,
)
    ensures
        candidates.len() > 1 ==> (signer::only_companion(candidates) matches Err(m) && shows(
            m,
            text::decimal_text(candidates.len()),
        )),
        openpgp::coordinate_size(curve) matches Some(n) ==> {
            &&& point.len() > 0 && point[0] == 0x04 && point.len() != 1 + 2 * n ==> (
            signer::point_fault(curve, point) matches Some(m) && shows_both(
                m,
                text::decimal_text(point.len()),
                text::decimal_text(1 + 2 * n),
            ))
            &&& point.len() > 0 && point[0] != 0x04 ==> (signer::point_fault(curve, point) matches Some(
                m,
            ) && shows(m, text::hex_text(point[0] as nat, 2)))
        },
        openpgp::coordinate_size(curve) is None ==> (signer::point_fault(curve, point) matches Some(
            m,
        ) && shows(m, openpgp::curve_text(curve))),
        shows(token::key_type_debug(kt), text::decimal_text(token::key_type_code(kt) as nat)),
        verify::is_bound(c, f) && !signers.contains(f) ==> (verify::signer_verdict(
            f,
            c,
            name,
            signers,
            now,
        ) matches Err(m) && shows_both(m, openpgp::upper_hex(f), time::rfc3339_text(now.secs))),
{
    if candidates.len() > 1 {
        shown(
            signer::only_companion(candidates)->Err_0,
            "ambiguous companion public-key lookup: "@,
            text::decimal_text(candidates.len()),
            " CKO_PUBLIC_KEY objects matched the private key's CKA_ID/CKA_LABEL — refusing to pick one to avoid binding the wrong public material"@,
        );
    }
    if let Some(n) = openpgp::coordinate_size(curve) {
        if point.len() > 0 && point[0] == 0x04 && point.len() != 1 + 2 * n {
            both_shown(
                signer::point_fault(curve, point)->0,
                "CKA_EC_POINT length mismatch for curve "@ + openpgp::curve_text(curve) + ": got "@,
                text::decimal_text(point.len()),
                " bytes, expected "@,
                text::decimal_text(1 + 2 * n),
                " (1 byte 0x04 prefix + 2 × "@ + text::decimal_text(n) + "-byte coordinate)"@,
            );
        }
        if point.len() > 0 && point[0] != 0x04 {
            shown(
                signer::point_fault(curve, point)->0,
                "CKA_EC_POINT must be an uncompressed point (first byte 0x04); got 0x"@,
                text::hex_text(point[0] as nat, 2),
                " ("@ + signer::point_form(point[0]) + " point or malformed)"@,
            );
        }
    } else {
        shown(
            signer::point_fault(curve, point)->0,
            "EC point validation: curve "@,
            openpgp::curve_text(curve),
            " is not supported"@,
        );
    }
    shown(
        token::key_type_debug(kt),
        "KeyType { val: "@,
        text::decimal_text(token::key_type_code(kt) as nat),
        " }"@,
    );
    if verify::is_bound(c, f) && !signers.contains(f) {
        both_shown(
            verify::signer_verdict(f, c, name, signers, now)->Err_0,
            "HSM key "@,
            openpgp::upper_hex(f),
            " is present in "@ + name + " but is not currently a valid signer at "@,
            time::rfc3339_text(now.secs),
            " (revoked, expired, or not signing-capable)"@,
        );
    }
}

/// The names of the NIST curves and of the hash algorithms that are used tell them apart.
pub proof fn names_tell_apart(curve: openpgp::CurveView, hash: HashAlgorithm)
    ensures
        curve == openpgp::CurveView::NistP256 ==> openpgp::curve_text(curve) == "NistP256"@,
        curve == openpgp::CurveView::NistP384 ==> openpgp::curve_text(curve) == "NistP384"@,
        curve == openpgp::CurveView::NistP521 ==> openpgp::curve_text(curve) == "NistP521"@,
        hash == HashAlgorithm::SHA256 ==> openpgp::hash_algorithm_text(hash) == "SHA256"@,
        hash == HashAlgorithm::SHA384 ==> openpgp::hash_algorithm_text(hash) == "SHA384"@,
        hash == HashAlgorithm::SHA512 ==> openpgp::hash_algorithm_text(hash) == "SHA512"@,
        hash == HashAlgorithm::SHA1 ==> openpgp::hash_algorithm_text(hash) == "SHA1"@,
{
}

// ---------------------------------------------------------------------------
// Refusals
// ---------------------------------------------------------------------------

/// Why a signature is not prepared: the key is not of the required algorithm; else it is
/// not in the certificate that would state its time; else its time does not fit.
pub proof fn sign_says_why(
    rest: SignRest,
    signer: Pkcs11Signer,
    c: Option<&Cert>,
    r: Result<SignJob, Error>,
)
    requires
        call_ensures(SignRest::prepare, (rest, signer, c), r),
    ensures
        rest.require_key_algo matches Some(a) ==> (!sign::is_of_algo(signer.public@.mpis, a)
            ==> error::fails_with(r, sign::wrong_algo(a))),
        rest.require_key_algo is None && rest.creation_time is None ==> (c matches Some(x) ==> (
        sign::published_key(*x, signer.public@.mpis) is None ==> error::fails_with(
            r,
            sign::no_published_key(),
        ))),
        rest.require_key_algo is None ==> (rest.creation_time matches Some(t) ==> (t.secs
            >= 0x1_0000_0000 ==> error::fails_with(r, openpgp::unrepresentable_time(t)))),
{
}

/// Why a certificate is not planned: a creation time does not fit; else the primary key is
/// another one than that of the certificate, of which both are shown; else the subkey is
/// in it already, which is shown.
pub proof fn cert_export_says_why(spec: CertSpec, r: Result<CertPlan, Error>)
    requires
        call_ensures(assemble::build_cert, (spec,), r),
    ensures
        spec.primary.creation_time.secs >= 0x1_0000_0000 ==> error::fails_with(
            r,
            openpgp::unrepresentable_time(spec.primary.creation_time),
        ),
        spec.primary.creation_time.secs < 0x1_0000_0000 && spec.subkey is None ==> (
        spec.merge_into matches Some(existing) ==> {
            let f = openpgp::v4_fingerprint(
                spec.primary.creation_time.secs as u32,
                spec.primary.signer.public@.mpis,
            );
            existing.primary@.fingerprint != f ==> error::fails_with(
                r,
                assemble::primary_mismatch(existing.primary@.fingerprint, f),
            )
        }),
        spec.primary.creation_time.secs < 0x1_0000_0000 ==> (spec.subkey matches Some(sub) ==> (
        sub.creation_time.secs < 0x1_0000_0000 ==> (spec.merge_into matches Some(existing) ==> {
            let f = openpgp::v4_fingerprint(
                spec.primary.creation_time.secs as u32,
                spec.primary.signer.public@.mpis,
            );
            let g = openpgp::v4_fingerprint(sub.creation_time.secs as u32, sub.signer.public@.mpis);
            &&& existing.primary@.fingerprint != f ==> error::fails_with(
                r,
                assemble::primary_mismatch(existing.primary@.fingerprint, f),
            )
            &&& existing.primary@.fingerprint == f && (exists|i: int|
                0 <= i < existing.subkeys@.len() && (#[trigger] existing.subkeys@[i])@.fingerprint
                    == g) ==> error::fails_with(r, assemble::already_bound(g))
        }))),
{
}

/// Why a revocation is not planned: the creation time does not fit, or the key on the token
/// is another one than the primary key of the certificate, of which both are shown; or the
/// subkey is not in the certificate, which is shown.
pub proof fn subkey_revoke_says_why(
    rest: SubkeyRevokeRest,
    signer: Pkcs11Signer,
    r: Result<RevocationPlan, Error>,
    target: SubkeyTarget,
    c: Cert,
    b: Result<(Progress, SubkeyRevokeRest), Error>,
)
    requires
        call_ensures(SubkeyRevokeRest::revoke_subkey, (rest, signer), r),
        call_ensures(SubkeyTarget::with_cert, (target, &c), b),
    ensures
        rest.terms.creation_time.secs >= 0x1_0000_0000 ==> error::fails_with(
            r,
            openpgp::unrepresentable_time(rest.terms.creation_time),
        ),
        rest.terms.creation_time.secs < 0x1_0000_0000 ==> {
            let f = openpgp::v4_fingerprint(
                rest.terms.creation_time.secs as u32,
                signer.public@.mpis,
            );
            rest.primary@ != f ==> error::fails_with(r, revoke::other_primary(rest.primary@, f))
        },
        b is Err ==> error::fails_with(b, cli::no_such_subkey(target.target@)),
{
}

proof fn shown_within(m: Seq<char>, x: Seq<char>, whole: Seq<char>, z: Seq<char>, part: Seq<char>)
    requires
        m == x + whole + z,
        shows(whole, part),
    ensures
        shows(m, part),
{
    let (a, b) = choose|a: Seq<char>, b: Seq<char>| whole == #[trigger] between(a, part, b);
    shown(m, x + a, part, b + z);
}

/// What is said of a URI that selects nothing shows all that it selects by.
pub proof fn messages_show_the_uri(u: uri::UriView)
    ensures
        ({
            let m = session::selector_text(session::SelectorView::Uri(u));
            &&& u.token_label matches Some(l) ==> shows(m, text::debug_text(l))
            &&& u.object_label matches Some(l) ==> shows(m, text::debug_text(l))
            &&& u.key_id matches Some(i) ==> shows(m, text::byte_list_text(i))
        }),
{
    let m = session::selector_text(session::SelectorView::Uri(u));
    let a = "Uri(Pkcs11Uri { token_label: "@;
    let b = ", object_label: "@;
    let c = ", key_id: "@;
    let d = " })"@;
    let x = session::optional_text(u.token_label);
    let o = session::optional_text(u.object_label);
    let i = session::optional_bytes(u.key_id);
    if let Some(l) = u.token_label {
        shown(x, "Some("@, text::debug_text(l), ")"@);
        assert(m =~= a + x + (b + o + c + i + d));
        shown_within(m, a, x, b + o + c + i + d, text::debug_text(l));
    }
    if let Some(l) = u.object_label {
        shown(o, "Some("@, text::debug_text(l), ")"@);
        assert(m =~= (a + x + b) + o + (c + i + d));
        shown_within(m, a + x + b, o, c + i + d, text::debug_text(l));
    }
    if let Some(v) = u.key_id {
        shown(i, "Some("@, text::byte_list_text(v), ")"@);
        assert(m =~= (a + x + b + o + c) + i + d);
        shown_within(m, a + x + b + o + c, i, d, text::byte_list_text(v));
    }
}

/// What is said of a text that is no hexadecimal notation shows the character and where it
/// stands, and is shown where the text is an identifier; what is said of an attribute that
/// is missing shows its name.
pub proof fn messages_show_the_character(ch: char, index: usize, t: AttributeType, s: Seq<char>)
    ensures
        shows_both(
            hexcode::fault_text(hexcode::HexFault::InvalidCharacter { c: ch, index }),
            text::debug_char_text(ch),
            text::decimal_text(index as nat),
        ),
        session::missing_attribute(t) matches error::ErrorView::KeyNotFound(m) && shows(
            m,
            token::attribute_type_text(t),
        ),
        !s.contains('%') ==> (hexcode::hex_decoded(vstd::utf8::encode_utf8(s)) matches Err(fault)
            ==> (uri::id_value(s) matches Err(m) && shows(m, hexcode::fault_text(fault)))),
{
    both_shown(
        hexcode::fault_text(hexcode::HexFault::InvalidCharacter { c: ch, index }),
        "Invalid character "@,
        text::debug_char_text(ch),
        " at position "@,
        text::decimal_text(index as nat),
        Seq::empty(),
    );
    shown(
        session::missing_attribute(t)->KeyNotFound_0,
        "attribute "@,
        token::attribute_type_text(t),
        " not present on key"@,
    );
    if let Err(fault) = hexcode::hex_decoded(vstd::utf8::encode_utf8(s)) {
        shown(
            "invalid key id hex: "@ + hexcode::fault_text(fault),
            "invalid key id hex: "@,
            hexcode::fault_text(fault),
            Seq::empty(),
        );
    }
}

/// What is said of a value that is not UTF-8 shows the value and why, and of a count of
/// years that is none the whole period.
pub proof fn messages_show_the_text(s: Seq<char>, y: Seq<char>, count: Seq<char>)
    ensures
        uri::binary_value(s) matches Ok(v) ==> (!vstd::utf8::valid_utf8(v) ==> (
        uri::text_value(s) matches Err(m) && shows_both(
            m,
            text::debug_text(s),
            text::utf8_error_text(v),
        ))),
        time::bad_years(y, count) matches error::ErrorView::Context { message, .. } && shows(
            message,
            text::debug_text(y),
        ),
{
    if let Ok(v) = uri::binary_value(s) {
        both_shown(
            "URI value "@ + text::debug_text(s) + " is not valid UTF-8: "@
                + text::utf8_error_text(v),
            "URI value "@,
            text::debug_text(s),
            " is not valid UTF-8: "@,
            text::utf8_error_text(v),
            Seq::empty(),
        );
    }
    shown(
        time::bad_years(y, count)->message,
        "invalid years value in --validity-period "@,
        text::debug_text(y),
        Seq::empty(),
    );
}

/// A list of bytes is shown as their decimal numbers in square brackets, each of them.
pub proof fn byte_lists_show_every_byte(b: Seq<u8>, last: u8)
    ensures
        text::byte_items_text(seq![last]) == text::decimal_text(last as nat),
        b.len() > 0 ==> text::byte_items_text(b.push(last)) == text::byte_items_text(b) + ", "@
            + text::decimal_text(last as nat),
        text::byte_list_text(b) == "["@ + text::byte_items_text(b) + "]"@,
{
    assert(b.push(last).drop_last() =~= b);
}

} // verus!
