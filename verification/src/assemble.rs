//! What a certificate and a revocation consist of: the signatures to be made, in
//! order, and by which key.

use vstd::prelude::*;

use crate::cert;
use crate::cert::{Cert, CertKey};
use crate::error;
use crate::error::Error;
use crate::openpgp;
use crate::openpgp::{Fingerprint, HashAlgorithm, SymmetricAlgorithm, UnixTime};
use crate::signer::Pkcs11Signer;
use crate::text;
use crate::time::Period;

verus! {

// ---------------------------------------------------------------------------
// Certificates
// ---------------------------------------------------------------------------

/// A key that goes into a certificate.
#[derive(Debug)]
pub struct KeySpec {
    pub signer: Pkcs11Signer,
    pub creation_time: UnixTime,
    pub validity_period: Option<Period>,
}

/// What a certificate is made from.
///
/// Without a subkey the primary key certifies and signs.  With one the primary key
/// certifies only, and the subkey signs.
///
/// With `merge_into`, user IDs and a subkey are added to that certificate.  The primary
/// key keeps its self-signature then, and none of the new user IDs is marked as the
/// primary one.
#[derive(Debug)]
pub struct CertSpec {
    pub primary: KeySpec,
    pub subkey: Option<KeySpec>,
    pub user_ids: Vec<String>,
    pub merge_into: Option<Cert>,
}

/// What a key may be used for.
#[derive(Debug, Clone, Copy, PartialEq, Eq, Structural)]
pub struct KeyFlags {
    pub certify: bool,
    pub sign: bool,
}

/// A signature to be made, or for a subkey the two that bind it.
#[derive(Debug)]
pub enum Step {
    /// The self-signature over the primary key.
    DirectKey {
        hash: HashAlgorithm,
        flags: KeyFlags,
        hashes: Vec<HashAlgorithm>,
        symmetric: Vec<SymmetricAlgorithm>,
        validity: Option<Period>,
    },
    /// A user ID with the signature that binds it to the primary key.
    UserId { user_id: String, hash: HashAlgorithm, primary: bool },
    /// The subkey with the signature by which it consents to the binding, made by the
    /// subkey, and the signature that binds it, made by the primary key with the former
    /// embedded.
    Subkey {
        consent_hash: HashAlgorithm,
        hash: HashAlgorithm,
        flags: KeyFlags,
        validity: Option<Period>,
    },
}

/// The mathematical content of a [`Step`].
pub enum StepView {
    DirectKey {
        hash: HashAlgorithm,
        flags: KeyFlags,
        hashes: Seq<HashAlgorithm>,
        symmetric: Seq<SymmetricAlgorithm>,
        validity: Option<Period>,
    },
    UserId { user_id: Seq<char>, hash: HashAlgorithm, primary: bool },
    Subkey {
        consent_hash: HashAlgorithm,
        hash: HashAlgorithm,
        flags: KeyFlags,
        validity: Option<Period>,
    },
}

impl View for Step {
    type V = StepView;

    open spec fn view(&self) -> StepView {
        match self {
            Step::DirectKey { hash, flags, hashes, symmetric, validity } => StepView::DirectKey {
                hash: *hash,
                flags: *flags,
                hashes: hashes@,
                symmetric: symmetric@,
                validity: *validity,
            },
            Step::UserId { user_id, hash, primary } => StepView::UserId {
                user_id: user_id@,
                hash: *hash,
                primary: *primary,
            },
            Step::Subkey { consent_hash, hash, flags, validity } => StepView::Subkey {
                consent_hash: *consent_hash,
                hash: *hash,
                flags: *flags,
                validity: *validity,
            },
        }
    }
}

/// The mathematical content of a list of steps.
pub open spec fn step_views(steps: Seq<Step>) -> Seq<StepView> {
    steps.map_values(|s: Step| s@)
}

/// How a certificate is made: the keys, stamped with their creation times, and the
/// steps in order.
#[derive(Debug)]
pub struct CertPlan {
    pub primary: Pkcs11Signer,
    pub subkey: Option<Pkcs11Signer>,
    pub steps: Vec<Step>,
    pub merge_into: Option<Cert>,
}

/// A key stamped with a creation time.
pub open spec fn stamped(key: openpgp::KeyView, t: UnixTime) -> openpgp::KeyView {
    openpgp::KeyView { creation_time: t.secs as u32, ..key }
}

/// What the primary key of a fresh certificate may be used for.
pub open spec fn primary_flags(has_subkey: bool) -> KeyFlags {
    KeyFlags { certify: true, sign: !has_subkey }
}

/// The step for the primary key of a fresh certificate.
pub open spec fn direct_key_step(spec: CertSpec) -> StepView {
    StepView::DirectKey {
        hash: cert::matching_hash(spec.primary.signer.public@),
        flags: primary_flags(spec.subkey is Some),
        hashes: seq![HashAlgorithm::SHA512, HashAlgorithm::SHA384, HashAlgorithm::SHA256],
        symmetric: seq![SymmetricAlgorithm::AES256, SymmetricAlgorithm::AES128],
        validity: spec.primary.validity_period,
    }
}

/// The steps for the user IDs, in order; where `mark` is set, the first one is marked
/// as the primary user ID.
pub open spec fn user_id_steps(
    user_ids: Seq<Seq<char>>,
    hash: HashAlgorithm,
    mark: bool,
) -> Seq<StepView> {
    Seq::new(
        user_ids.len(),
        |i: int| StepView::UserId { user_id: user_ids[i], hash, primary: mark && i == 0 },
    )
}

/// The step for the subkey, if there is one.
pub open spec fn subkey_steps(spec: CertSpec) -> Seq<StepView> {
    match spec.subkey {
        None => Seq::empty(),
        Some(sub) => seq![
            StepView::Subkey {
                consent_hash: cert::matching_hash(sub.signer.public@),
                hash: cert::matching_hash(spec.primary.signer.public@),
                flags: KeyFlags { certify: false, sign: true },
                validity: sub.validity_period,
            },
        ],
    }
}

/// The steps by which a certificate is made.
pub open spec fn cert_steps(spec: CertSpec) -> Seq<StepView> {
    let direct = if spec.merge_into is None {
        seq![direct_key_step(spec)]
    } else {
        Seq::empty()
    };
    direct + user_id_steps(
        cert::string_views(spec.user_ids@),
        cert::matching_hash(spec.primary.signer.public@),
        spec.merge_into is None,
    ) + subkey_steps(spec)
}

/// Whether one of the subkeys of `c` has the fingerprint.
pub open spec fn binds(c: Cert, fingerprint: Seq<u8>) -> bool {
    exists|i: int|
        0 <= i < c.subkeys@.len() && (#[trigger] c.subkeys@[i])@.fingerprint == fingerprint
}

/// What is said where the primary key is another one than that of the certificate.
pub open spec fn primary_mismatch(existing: Seq<u8>, new: Seq<u8>) -> error::ErrorView {
    error::ErrorView::Other(
        "primary fingerprint mismatch: existing cert has "@ + openpgp::upper_hex(existing)
            + ", HSM-derived primary is "@ + openpgp::upper_hex(new)
            + " (check --creation-time matches the existing cert)"@,
    )
}

/// What is said where the certificate has the subkey already.
pub open spec fn already_bound(subkey: Seq<u8>) -> error::ErrorView {
    error::ErrorView::Other(
        "subkey "@ + openpgp::upper_hex(subkey)
            + " is already bound in the input cert; re-running cert-export --merge-cert with the same subkey is a no-op and almost certainly a mistake. To rotate, supply a different --subkey-creation-time (or a different subkey entirely) so the new subkey gets a distinct fingerprint."@,
    )
}

/// Why keys with the given fingerprints cannot be merged into `existing`, if they
/// cannot: the primary key must be that of the certificate, and the subkey must be new.
pub open spec fn merge_fault(
    existing: Cert,
    primary: Seq<u8>,
    subkey: Option<Seq<u8>>,
) -> Option<error::ErrorView> {
    if existing.primary@.fingerprint != primary {
        Some(primary_mismatch(existing.primary@.fingerprint, primary))
    } else {
        match subkey {
            Some(f) => if binds(existing, f) {
                Some(already_bound(f))
            } else {
                None
            },
            None => None,
        }
    }
}

/// Whether one of the subkeys of `c` has the fingerprint `f`.
pub fn has_subkey(c: &Cert, f: &Fingerprint) -> (r: bool)
    ensures
        r == binds(*c, f@),
{
    let mut i: usize = 0;
    while i < c.subkeys.len()
        invariant
            i <= c.subkeys.len(),
            forall|k: int| 0 <= k < i ==> (#[trigger] c.subkeys@[k])@.fingerprint != f@,
        decreases c.subkeys.len() - i,
    {
        if c.subkeys[i].fingerprint.same(f) {
            assert(c.subkeys@[i as int]@.fingerprint == f@);
            return true;
        }
        i += 1;
    }
    false
}

/// Whether keys with these fingerprints can be merged into `existing`.
pub fn check_merge(existing: &Cert, primary: &Fingerprint, subkey: Option<&Fingerprint>) -> (r:
    Result<(), Error>)
    ensures
        match merge_fault(
            *existing,
            primary@,
            match subkey {
                Some(f) => Some(f@),
                None => None,
            },
        ) {
            Some(e) => error::fails_with(r, e),
            None => r is Ok,
        },
{
    if !existing.primary.fingerprint.same(primary) {
        let mut message = text::join3(
            "primary fingerprint mismatch: existing cert has ",
            existing.primary.fingerprint.text().as_str(),
            ", HSM-derived primary is ",
        );
        message.append(primary.text().as_str());
        message.append(" (check --creation-time matches the existing cert)");
        return Err(Error::Other(message));
    }
    match subkey {
        Some(f) => {
            if has_subkey(existing, f) {
                return Err(
                    Error::Other(
                        text::join3(
                            "subkey ",
                            f.text().as_str(),
                            " is already bound in the input cert; re-running cert-export --merge-cert with the same subkey is a no-op and almost certainly a mistake. To rotate, supply a different --subkey-creation-time (or a different subkey entirely) so the new subkey gets a distinct fingerprint.",
                        ),
                    ),
                );
            }
            Ok(())
        },
        None => Ok(()),
    }
}

/// The fingerprint of a key that is stamped with its creation time.
pub open spec fn spec_fingerprint(k: KeySpec) -> Seq<u8> {
    openpgp::v4_fingerprint(k.creation_time.secs as u32, k.signer.public@.mpis)
}

/// Why a certificate cannot be made, if it cannot.
pub open spec fn cert_fault(spec: CertSpec) -> Option<error::ErrorView> {
    if spec.primary.creation_time.secs > u32::MAX {
        Some(openpgp::unrepresentable_time(spec.primary.creation_time))
    } else if spec.subkey matches Some(sub) && sub.creation_time.secs > u32::MAX {
        Some(openpgp::unrepresentable_time(spec.subkey->0.creation_time))
    } else {
        match spec.merge_into {
            None => None,
            Some(existing) => merge_fault(
                existing,
                spec_fingerprint(spec.primary),
                match spec.subkey {
                    Some(sub) => Some(spec_fingerprint(sub)),
                    None => None,
                },
            ),
        }
    }
}

/// Whether the fingerprint of a key can be computed.
pub open spec fn has_fingerprint(k: KeySpec) -> bool {
    openpgp::usable(k.signer.public@) && openpgp::clock_covers(k.creation_time.secs as int)
}

/// `s` is the signer of `k`, stamped.
pub open spec fn is_stamped(s: Pkcs11Signer, k: KeySpec) -> bool {
    &&& s.priv_handle == k.signer.priv_handle
    &&& s.key_type == k.signer.key_type
    &&& s.public@ == stamped(k.signer.public@, k.creation_time)
}

/// `plan` is how the certificate is made: the keys are stamped, the steps are those for
/// a fresh certificate or for a merge, and what is merged into is unchanged.
pub open spec fn is_plan_of(plan: CertPlan, spec: CertSpec) -> bool {
    &&& is_stamped(plan.primary, spec.primary)
    &&& match spec.subkey {
        Some(sub) => plan.subkey matches Some(s) && is_stamped(s, sub),
        None => plan.subkey is None,
    }
    &&& step_views(plan.steps@) == cert_steps(spec)
    &&& plan.merge_into == spec.merge_into
}

/// Stamps the signer of `k` with its creation time.
fn stamp(k: KeySpec) -> (r: Result<(Pkcs11Signer, Option<Period>), Error>)
    ensures
        if k.creation_time.secs <= u32::MAX {
            r matches Ok((s, v)) && is_stamped(s, k) && v == k.validity_period
        } else {
            error::fails_with(r, openpgp::unrepresentable_time(k.creation_time))
        },
{
    let mut signer = k.signer;
    match signer.set_creation_time(k.creation_time) {
        Ok(()) => Ok((signer, k.validity_period)),
        Err(e) => Err(e),
    }
}

/// Plans a certificate, or an addition to one.
///
/// A fresh certificate gets a self-signature over its primary key, then its user IDs
/// and then its subkey.  An existing one gets user IDs, which may be none, and a
/// subkey; all that is in it stays.  It is refused unless its primary key is the one on
/// the token, stamped with the given time, and unless the subkey is new to it.
pub fn build_cert(spec: CertSpec) -> (r: Result<CertPlan, Error>)
    requires
        spec.merge_into is None ==> spec.user_ids@.len() > 0,
        spec.merge_into is Some ==> has_fingerprint(spec.primary),
        spec.merge_into is Some ==> (spec.subkey matches Some(sub) ==> has_fingerprint(sub)),
    ensures
        match cert_fault(spec) {
            Some(e) => error::fails_with(r, e),
            None => r matches Ok(plan) && is_plan_of(plan, spec),
        },
{
    let ghost whole = spec;
    let (primary, primary_validity): (Pkcs11Signer, Option<Period>) = match stamp(spec.primary) {
        Ok(stamped) => stamped,
        Err(e) => {
            return Err(e);
        },
    };
    let subkey: Option<(Pkcs11Signer, Option<Period>)> = match spec.subkey {
        Some(sub) => match stamp(sub) {
            Ok(stamped) => Some(stamped),
            Err(e) => {
                return Err(e);
            },
        },
        None => None,
    };
    let fresh = spec.merge_into.is_none();
    if let Some(existing) = &spec.merge_into {
        let primary_fingerprint = primary.public.fingerprint();
        let checked = match &subkey {
            Some((signer, _)) => {
                let subkey_fingerprint = signer.public.fingerprint();
                check_merge(existing, &primary_fingerprint, Some(&subkey_fingerprint))
            },
            None => check_merge(existing, &primary_fingerprint, None),
        };
        match checked {
            Ok(()) => {},
            Err(e) => {
                return Err(e);
            },
        }
    }
    let hash = cert::preferred_hash_for(&primary.public);
    let mut steps: Vec<Step> = Vec::new();
    if fresh {
        steps.push(
            Step::DirectKey {
                hash,
                flags: KeyFlags { certify: true, sign: subkey.is_none() },
                hashes: cert::preferred_hashes(),
                symmetric: cert::preferred_symmetric(),
                validity: primary_validity,
            },
        );
    }
    let ghost direct = step_views(steps@);
    let ghost names = cert::string_views(spec.user_ids@);
    assert(direct =~= (if fresh {
        seq![direct_key_step(whole)]
    } else {
        Seq::empty()
    }));
    let mut i: usize = 0;
    assert(direct + user_id_steps(names, hash, fresh).take(0) =~= direct);
    while i < spec.user_ids.len()
        invariant
            i <= spec.user_ids.len(),
            names == cert::string_views(spec.user_ids@),
            step_views(steps@) == direct + user_id_steps(names, hash, fresh).take(i as int),
        decreases spec.user_ids.len() - i,
    {
        let ghost before = step_views(steps@);
        let ghost all = user_id_steps(names, hash, fresh);
        steps.push(
            Step::UserId { user_id: spec.user_ids[i].clone(), hash, primary: fresh && i == 0 },
        );
        assert(step_views(steps@) =~= before.push(all[i as int]));
        assert(direct + all.take(i + 1) =~= (direct + all.take(i as int)).push(all[i as int]));
        i += 1;
    }
    assert(user_id_steps(names, hash, fresh).take(i as int) =~= user_id_steps(names, hash, fresh));
    let ghost before = step_views(steps@);
    let subkey_signer = match subkey {
        Some((signer, validity)) => {
            steps.push(
                Step::Subkey {
                    consent_hash: cert::preferred_hash_for(&signer.public),
                    hash,
                    flags: KeyFlags { certify: false, sign: true },
                    validity,
                },
            );
            Some(signer)
        },
        None => None,
    };
    assert(step_views(steps@) =~= before + subkey_steps(whole));
    Ok(CertPlan { primary, subkey: subkey_signer, steps, merge_into: spec.merge_into })
}

// ---------------------------------------------------------------------------
// Revocations
// ---------------------------------------------------------------------------

/// Why a key is revoked, as OpenPGP states it.
#[derive(Debug, Clone, Copy, PartialEq, Eq, Structural)]
pub enum ReasonForRevocation {
    Unspecified,
    KeySuperseded,
    KeyCompromised,
    KeyRetired,
}

/// The number by which OpenPGP states a reason.
pub open spec fn reason_number(r: ReasonForRevocation) -> u8 {
    match r {
        ReasonForRevocation::Unspecified => 0,
        ReasonForRevocation::KeySuperseded => 1,
        ReasonForRevocation::KeyCompromised => 2,
        ReasonForRevocation::KeyRetired => 3,
    }
}

impl ReasonForRevocation {
    /// The number by which OpenPGP states the reason.
    pub fn code(&self) -> (n: u8)
        ensures
            n == reason_number(*self),
    {
        match self {
            ReasonForRevocation::Unspecified => 0,
            ReasonForRevocation::KeySuperseded => 1,
            ReasonForRevocation::KeyCompromised => 2,
            ReasonForRevocation::KeyRetired => 3,
        }
    }
}

/// Why a key is revoked, as it is given on the command line.
#[derive(Debug, Clone, Copy, PartialEq, Eq, Structural)]
pub enum RevocationReason {
    /// Nothing is said of the reason.
    Unspecified,
    /// A new key takes the place of this one.
    Superseded,
    /// The secret is believed to be known to others.
    Compromised,
    /// The key is no longer used, and not replaced.
    Retired,
}

/// The reason as OpenPGP states it.
pub open spec fn openpgp_reason(r: RevocationReason) -> ReasonForRevocation {
    match r {
        RevocationReason::Unspecified => ReasonForRevocation::Unspecified,
        RevocationReason::Superseded => ReasonForRevocation::KeySuperseded,
        RevocationReason::Compromised => ReasonForRevocation::KeyCompromised,
        RevocationReason::Retired => ReasonForRevocation::KeyRetired,
    }
}

impl From<RevocationReason> for ReasonForRevocation {
    fn from(r: RevocationReason) -> Self {
        match r {
            RevocationReason::Unspecified => ReasonForRevocation::Unspecified,
            RevocationReason::Superseded => ReasonForRevocation::KeySuperseded,
            RevocationReason::Compromised => ReasonForRevocation::KeyCompromised,
            RevocationReason::Retired => ReasonForRevocation::KeyRetired,
        }
    }
}

impl vstd::std_specs::convert::FromSpecImpl<RevocationReason> for ReasonForRevocation {
    open spec fn obeys_from_spec() -> bool {
        true
    }

    open spec fn from_spec(r: RevocationReason) -> Self {
        openpgp_reason(r)
    }
}

/// What the revocation of a primary key is made from.
#[derive(Debug)]
pub struct CertRevocationSpec {
    pub primary: KeySpec,
    pub reason: ReasonForRevocation,
    pub message: Vec<u8>,
    pub revocation_time: UnixTime,
}

/// What the revocation of a subkey is made from.  The subkey is given by its public
/// key, so that its private key need not be at hand: it may be lost or compromised.
#[derive(Debug)]
pub struct SubkeyRevocationSpec {
    pub primary: KeySpec,
    pub subkey_public: CertKey,
    pub reason: ReasonForRevocation,
    pub message: Vec<u8>,
    pub revocation_time: UnixTime,
}

/// How a revocation is made: by the primary key, stamped with its creation time.
#[derive(Debug)]
pub struct RevocationPlan {
    pub primary: Pkcs11Signer,
    pub hash: HashAlgorithm,
    pub reason: ReasonForRevocation,
    pub message: Vec<u8>,
    pub revocation_time: UnixTime,
    /// The subkey that is revoked; without one it is the primary key.
    pub subkey: Option<CertKey>,
}

/// `plan` is the revocation of the primary key that `spec` describes.
pub open spec fn is_revocation_of(plan: RevocationPlan, spec: CertRevocationSpec) -> bool {
    &&& is_stamped(plan.primary, spec.primary)
    &&& plan.hash == cert::matching_hash(spec.primary.signer.public@)
    &&& plan.reason == spec.reason
    &&& plan.message == spec.message
    &&& plan.revocation_time == spec.revocation_time
    &&& plan.subkey is None
}

/// `plan` is the revocation of the subkey that `spec` describes.
pub open spec fn is_subkey_revocation_of(plan: RevocationPlan, spec: SubkeyRevocationSpec) -> bool {
    &&& is_stamped(plan.primary, spec.primary)
    &&& plan.hash == cert::matching_hash(spec.primary.signer.public@)
    &&& plan.reason == spec.reason
    &&& plan.message == spec.message
    &&& plan.revocation_time == spec.revocation_time
    &&& plan.subkey == Some(spec.subkey_public)
}

/// Plans the revocation of a primary key.
pub fn build_cert_revocation(spec: CertRevocationSpec) -> (r: Result<RevocationPlan, Error>)
    ensures
        if spec.primary.creation_time.secs <= u32::MAX {
            r matches Ok(plan) && is_revocation_of(plan, spec)
        } else {
            error::fails_with(r, openpgp::unrepresentable_time(spec.primary.creation_time))
        },
{
    match stamp(spec.primary) {
        Ok((primary, _)) => {
            let hash = cert::preferred_hash_for(&primary.public);
            Ok(
                RevocationPlan {
                    primary,
                    hash,
                    reason: spec.reason,
                    message: spec.message,
                    revocation_time: spec.revocation_time,
                    subkey: None,
                },
            )
        },
        Err(e) => Err(e),
    }
}

/// Plans the revocation of a subkey.  Only the primary key signs.
pub fn build_subkey_revocation(spec: SubkeyRevocationSpec) -> (r: Result<RevocationPlan, Error>)
    ensures
        if spec.primary.creation_time.secs <= u32::MAX {
            r matches Ok(plan) && is_subkey_revocation_of(plan, spec)
        } else {
            error::fails_with(r, openpgp::unrepresentable_time(spec.primary.creation_time))
        },
{
    match stamp(spec.primary) {
        Ok((primary, _)) => {
            let hash = cert::preferred_hash_for(&primary.public);
            Ok(
                RevocationPlan {
                    primary,
                    hash,
                    reason: spec.reason,
                    message: spec.message,
                    revocation_time: spec.revocation_time,
                    subkey: Some(spec.subkey_public),
                },
            )
        },
        Err(e) => Err(e),
    }
}

// ---------------------------------------------------------------------------
// Laws
// ---------------------------------------------------------------------------

/// A step that marks a user ID as the primary one.
pub open spec fn marks_primary(s: StepView) -> bool {
    s matches StepView::UserId { primary, .. } && primary
}

/// A step that lets a key sign data.
pub open spec fn lets_sign(s: StepView) -> bool {
    match s {
        StepView::DirectKey { flags, .. } => flags.sign,
        StepView::Subkey { flags, .. } => flags.sign,
        StepView::UserId { .. } => false,
    }
}

/// A step that lets a key certify.
pub open spec fn lets_certify(s: StepView) -> bool {
    match s {
        StepView::DirectKey { flags, .. } => flags.certify,
        StepView::Subkey { flags, .. } => flags.certify,
        StepView::UserId { .. } => false,
    }
}

/// In a fresh certificate exactly one user ID is marked as the primary one, the first;
/// in a merge none is.
pub proof fn one_primary_user_id(spec: CertSpec)
    requires
        spec.merge_into is None ==> spec.user_ids@.len() > 0,
    ensures
        forall|i: int|
            0 <= i < cert_steps(spec).len() ==> (marks_primary(#[trigger] cert_steps(spec)[i])
                <==> spec.merge_into is None && i == 1),
{
    assert forall|i: int| 0 <= i < cert_steps(spec).len() implies (marks_primary(
        #[trigger] cert_steps(spec)[i],
    ) <==> spec.merge_into is None && i == 1) by {
        let names = cert::string_views(spec.user_ids@);
        let hash = cert::matching_hash(spec.primary.signer.public@);
        let uids = user_id_steps(names, hash, spec.merge_into is None);
        let offset = if spec.merge_into is None {
            1int
        } else {
            0int
        };
        if offset <= i < offset + names.len() {
            assert(cert_steps(spec)[i] == uids[i - offset]);
        }
    }
}

/// In a fresh certificate exactly one key may sign: the primary key without a subkey,
/// and the subkey with one.  Only the primary key may certify.
pub proof fn one_signing_key(spec: CertSpec)
    requires
        spec.merge_into is None,
    ensures
        forall|i: int|
            0 <= i < cert_steps(spec).len() ==> (lets_sign(#[trigger] cert_steps(spec)[i]) <==> i
                == (if spec.subkey is Some {
                cert_steps(spec).len() - 1
            } else {
                0
            })),
        forall|i: int|
            0 <= i < cert_steps(spec).len() ==> (lets_certify(#[trigger] cert_steps(spec)[i])
                <==> i == 0),
{
    let names = cert::string_views(spec.user_ids@);
    let hash = cert::matching_hash(spec.primary.signer.public@);
    let uids = user_id_steps(names, hash, true);
    assert forall|i: int| 0 <= i < cert_steps(spec).len() implies (lets_sign(
        #[trigger] cert_steps(spec)[i],
    ) <==> i == (if spec.subkey is Some {
        cert_steps(spec).len() - 1
    } else {
        0
    })) && (lets_certify(cert_steps(spec)[i]) <==> i == 0) by {
        if 1 <= i < 1 + names.len() {
            assert(cert_steps(spec)[i] == uids[i - 1]);
        }
    }
}

/// A merge makes no new self-signature over the primary key.
pub proof fn merge_keeps_the_primary(spec: CertSpec)
    requires
        spec.merge_into is Some,
    ensures
        forall|i: int|
            0 <= i < cert_steps(spec).len() ==> !(#[trigger] cert_steps(spec)[i] is DirectKey),
        cert_steps(spec).len() == spec.user_ids@.len() + (if spec.subkey is Some {
            1int
        } else {
            0int
        }),
{
    let names = cert::string_views(spec.user_ids@);
    let hash = cert::matching_hash(spec.primary.signer.public@);
    let uids = user_id_steps(names, hash, false);
    assert forall|i: int| 0 <= i < cert_steps(spec).len() implies !(#[trigger] cert_steps(spec)[i]
        is DirectKey) by {
        if 0 <= i < names.len() {
            assert(cert_steps(spec)[i] == uids[i]);
        }
    }
}

/// A merge is refused for another primary key, and for a subkey that is there already.
pub proof fn merge_is_guarded(spec: CertSpec)
    requires
        spec.merge_into is Some,
        cert_fault(spec) is None,
    ensures
        spec.merge_into->0.primary@.fingerprint == spec_fingerprint(spec.primary),
        spec.subkey matches Some(sub) ==> !binds(spec.merge_into->0, spec_fingerprint(sub)),
{
}

/// The fingerprint of a stamped key depends on its material and on the stamp alone: the
/// key of a certificate and the issuer of a later signature agree, whatever the key was
/// stamped with before.
pub proof fn fingerprints_are_stable(a: openpgp::KeyView, b: openpgp::KeyView, t: UnixTime)
    requires
        a.mpis == b.mpis,
    ensures
        openpgp::v4_fingerprint(stamped(a, t).creation_time, stamped(a, t).mpis)
            == openpgp::v4_fingerprint(stamped(b, t).creation_time, stamped(b, t).mpis),
        stamped(stamped(a, t), t) == stamped(a, t),
{
}

/// The user IDs that a list of steps binds, in order.
pub open spec fn bound_user_ids(steps: Seq<StepView>) -> Seq<Seq<char>>
    decreases steps.len(),
{
    if steps.len() == 0 {
        Seq::empty()
    } else {
        let rest = bound_user_ids(steps.drop_last());
        match steps.last() {
            StepView::UserId { user_id, .. } => rest.push(user_id),
            _ => rest,
        }
    }
}

/// The place of the first user ID among the steps.
pub open spec fn first_user_id(merge_into: Option<Cert>) -> int {
    if merge_into is None {
        1
    } else {
        0
    }
}

/// A plan binds the given user IDs, all of them and in the given order, and no others:
/// behind the self-signature of a fresh certificate, and at the start of a merge.
pub proof fn every_user_id_is_bound(plan: CertPlan, spec: CertSpec)
    requires
        is_plan_of(plan, spec),
    ensures
        bound_user_ids(step_views(plan.steps@)) == cert::string_views(spec.user_ids@),
        forall|i: int|
            0 <= i < spec.user_ids@.len() ==> (plan.steps@[first_user_id(spec.merge_into) + i]@
                matches StepView::UserId { user_id, .. } && user_id == (#[trigger] spec.user_ids@[i])@),
        forall|i: int|
            0 <= i < plan.steps@.len() && (#[trigger] plan.steps@[i])@ is UserId
                ==> first_user_id(spec.merge_into) <= i < first_user_id(spec.merge_into)
                + spec.user_ids@.len(),
        forall|i: int|
            0 <= i < spec.user_ids@.len() ==> bound_user_ids(step_views(plan.steps@)).contains(
                (#[trigger] spec.user_ids@[i])@,
            ),
{
    let steps = step_views(plan.steps@);
    let names = cert::string_views(spec.user_ids@);
    let offset = first_user_id(spec.merge_into);
    let hash = cert::matching_hash(spec.primary.signer.public@);
    let uids = user_id_steps(names, hash, spec.merge_into is None);
    assert(steps.len() == plan.steps@.len());
    assert forall|i: int| 0 <= i < plan.steps@.len() implies (#[trigger] plan.steps@[i])@
        == steps[i] by {}
    assert forall|i: int| 0 <= i < names.len() implies #[trigger] steps[offset + i] == uids[i] by {}
    assert forall|i: int| 0 <= i < spec.user_ids@.len() implies (plan.steps@[offset
        + i]@ matches StepView::UserId { user_id, .. } && user_id == (#[trigger] spec.user_ids@[i])@) by {
        assert(steps[offset + i] == uids[i]);
        assert(plan.steps@[offset + i]@ == steps[offset + i]);
    }
    binding_by_count(steps, names, offset, steps.len());
    assert(steps.take(steps.len() as int) =~= steps);
    assert(names.take(names.len() as int) =~= names);
    assert(bound_user_ids(steps) == names);
    assert forall|i: int| 0 <= i < spec.user_ids@.len() implies bound_user_ids(steps).contains(
        (#[trigger] spec.user_ids@[i])@,
    ) by {
        assert(names[i] == spec.user_ids@[i]@);
    }
}

proof fn binding_by_count(steps: Seq<StepView>, names: Seq<Seq<char>>, offset: int, n: nat)
    requires
        0 <= offset,
        offset + names.len() <= steps.len(),
        n <= steps.len(),
        forall|i: int|
            0 <= i < steps.len() && (#[trigger] steps[i]) is UserId ==> offset <= i < offset
                + names.len(),
        forall|i: int|
            0 <= i < names.len() ==> #[trigger] steps[offset + i] is UserId && steps[offset
                + i]->user_id == names[i],
    ensures
        bound_user_ids(steps.take(n as int)) == names.take(
            if n <= offset {
                0int
            } else if n <= offset + names.len() {
                n - offset
            } else {
                names.len() as int
            },
        ),
    decreases n,
{
    if n > 0 {
        let before = (n - 1) as nat;
        binding_by_count(steps, names, offset, before);
        assert(steps.take(n as int).drop_last() =~= steps.take(before as int));
        assert(steps.take(n as int).last() == steps[n - 1]);
        if offset <= n - 1 < offset + names.len() {
            assert(steps[offset + (n - 1 - offset)] is UserId);
            assert(names.take(n - offset) =~= names.take(n - 1 - offset).push(
                names[n - 1 - offset],
            ));
        }
    }
    assert(names.take(0) =~= Seq::<Seq<char>>::empty());
    assert(names.take(names.len() as int) =~= names);
}

/// The keys of a plan are those that were given, under the same handles and with the same
/// material, each with its own creation time in whole seconds; a plan has a subkey exactly
/// if one was given; and it goes into the certificate that was given.
pub proof fn plans_keep_the_keys(plan: CertPlan, spec: CertSpec)
    requires
        is_plan_of(plan, spec),
        cert_fault(spec) is None,
    ensures
        plan.primary.priv_handle == spec.primary.signer.priv_handle,
        plan.primary.key_type == spec.primary.signer.key_type,
        plan.primary.public@.mpis == spec.primary.signer.public@.mpis,
        plan.primary.public@.pk_algo == spec.primary.signer.public@.pk_algo,
        plan.primary.public@.creation_time == spec.primary.creation_time.secs,
        plan.subkey is Some <==> spec.subkey is Some,
        plan.subkey matches Some(s) ==> {
            let sub = spec.subkey->0;
            &&& s.priv_handle == sub.signer.priv_handle
            &&& s.key_type == sub.signer.key_type
            &&& s.public@.mpis == sub.signer.public@.mpis
            &&& s.public@.pk_algo == sub.signer.public@.pk_algo
            &&& s.public@.creation_time == sub.creation_time.secs
        },
        plan.merge_into == spec.merge_into,
{
}

/// A fresh certificate starts with the self-signature, which states the preferences and
/// the validity of the primary key; the binding of a subkey stands last, and states the
/// validity of the subkey.  Every signature by the primary key is under the hash algorithm
/// of that key, and the one by the subkey under that of the subkey.
pub proof fn steps_are_in_order(plan: CertPlan, spec: CertSpec)
    requires
        is_plan_of(plan, spec),
    ensures
        plan.steps@.len() == first_user_id(spec.merge_into) + spec.user_ids@.len() + (
        if spec.subkey is Some {
            1int
        } else {
            0
        }),
        forall|i: int|
            0 <= i < plan.steps@.len() ==> ((#[trigger] plan.steps@[i])@ is DirectKey
                <==> spec.merge_into is None && i == 0),
        forall|i: int|
            0 <= i < plan.steps@.len() ==> ((#[trigger] plan.steps@[i])@ is Subkey
                <==> spec.subkey is Some && i == plan.steps@.len() - 1),
        forall|i: int|
            0 <= i < plan.steps@.len() ==> match (#[trigger] plan.steps@[i])@ {
                StepView::DirectKey { hash, flags, hashes, symmetric, validity } => {
                    &&& hash == cert::matching_hash(plan.primary.public@)
                    &&& flags.certify
                    &&& flags.sign <==> spec.subkey is None
                    &&& hashes.len() == 3 && hashes[0] == HashAlgorithm::SHA512 && hashes[1]
                        == HashAlgorithm::SHA384 && hashes[2] == HashAlgorithm::SHA256
                    &&& symmetric.len() == 2 && symmetric[0] == SymmetricAlgorithm::AES256
                        && symmetric[1] == SymmetricAlgorithm::AES128
                    &&& validity == spec.primary.validity_period
                },
                StepView::UserId { user_id, hash, primary } => {
                    &&& hash == cert::matching_hash(plan.primary.public@)
                    &&& primary <==> spec.merge_into is None && i == 1
                },
                StepView::Subkey { consent_hash, hash, flags, validity } => {
                    &&& consent_hash == cert::matching_hash(plan.subkey->0.public@)
                    &&& hash == cert::matching_hash(plan.primary.public@)
                    &&& !flags.certify
                    &&& flags.sign
                    &&& validity == spec.subkey->0.validity_period
                },
            },
{
    let steps = step_views(plan.steps@);
    let names = cert::string_views(spec.user_ids@);
    let offset = first_user_id(spec.merge_into);
    let hash = cert::matching_hash(spec.primary.signer.public@);
    let uids = user_id_steps(names, hash, spec.merge_into is None);
    assert forall|i: int| 0 <= i < plan.steps@.len() implies (#[trigger] plan.steps@[i])@
        == steps[i] by {}
    assert forall|i: int| 0 <= i < steps.len() implies #[trigger] steps[i] == (if i < offset {
        direct_key_step(spec)
    } else if i < offset + names.len() {
        uids[i - offset]
    } else {
        subkey_steps(spec)[0]
    }) by {}
}

/// Each NIST curve goes with the SHA-2 algorithm of its size, and every other curve with
/// SHA-384; keys that are on no curve go with SHA-512.
pub proof fn hashes_match_the_keys(key: openpgp::KeyView)
    ensures
        key.mpis !is ECDSA ==> cert::matching_hash(key) == HashAlgorithm::SHA512,
        key.mpis matches openpgp::PublicKeyView::ECDSA { curve, .. } ==> {
            &&& curve == openpgp::CurveView::NistP256 <==> cert::matching_hash(key)
                == HashAlgorithm::SHA256
            &&& curve == openpgp::CurveView::NistP521 <==> cert::matching_hash(key)
                == HashAlgorithm::SHA512
            &&& curve != openpgp::CurveView::NistP256 && curve != openpgp::CurveView::NistP521 <==>
                cert::matching_hash(key) == HashAlgorithm::SHA384
        },
{
}

/// A certificate is made exactly if the creation times fit into 32 bits and, for a merge,
/// if the primary key is that of the certificate and the subkey is not in it yet.
pub proof fn certificates_are_made_unless_refused(spec: CertSpec)
    ensures
        cert_fault(spec) is None <==> {
            &&& spec.primary.creation_time.secs < 0x1_0000_0000
            &&& spec.subkey matches Some(sub) ==> sub.creation_time.secs < 0x1_0000_0000
            &&& spec.merge_into matches Some(existing) ==> {
                &&& existing.primary@.fingerprint == openpgp::v4_fingerprint(
                    spec.primary.creation_time.secs as u32,
                    spec.primary.signer.public@.mpis,
                )
                &&& spec.subkey matches Some(sub) ==> forall|i: int|
                    0 <= i < existing.subkeys@.len() ==> (#[trigger] existing.subkeys@[i])@.fingerprint
                        != openpgp::v4_fingerprint(
                        sub.creation_time.secs as u32,
                        sub.signer.public@.mpis,
                    )
            }
        },
{
}

/// A revocation is made by the given primary key with its creation time, under the hash
/// algorithm of that key, for the given reason, with the given message and time.  It is of
/// the primary key itself, or of the given subkey.
pub proof fn revocations_state_what_was_given(
    plan: RevocationPlan,
    own: CertRevocationSpec,
    sub: SubkeyRevocationSpec,
)
    ensures
        is_revocation_of(plan, own) && own.primary.creation_time.secs <= u32::MAX ==> {
            &&& plan.primary.priv_handle == own.primary.signer.priv_handle
            &&& plan.primary.key_type == own.primary.signer.key_type
            &&& plan.primary.public@.mpis == own.primary.signer.public@.mpis
            &&& plan.primary.public@.pk_algo == own.primary.signer.public@.pk_algo
            &&& plan.primary.public@.creation_time == own.primary.creation_time.secs
            &&& plan.hash == cert::matching_hash(plan.primary.public@)
            &&& plan.reason == own.reason
            &&& plan.message@ == own.message@
            &&& plan.revocation_time == own.revocation_time
            &&& plan.subkey is None
        },
        is_subkey_revocation_of(plan, sub) && sub.primary.creation_time.secs <= u32::MAX ==> {
            &&& plan.primary.priv_handle == sub.primary.signer.priv_handle
            &&& plan.primary.key_type == sub.primary.signer.key_type
            &&& plan.primary.public@.mpis == sub.primary.signer.public@.mpis
            &&& plan.primary.public@.pk_algo == sub.primary.signer.public@.pk_algo
            &&& plan.primary.public@.creation_time == sub.primary.creation_time.secs
            &&& plan.hash == cert::matching_hash(plan.primary.public@)
            &&& plan.reason == sub.reason
            &&& plan.message@ == sub.message@
            &&& plan.revocation_time == sub.revocation_time
            &&& plan.subkey matches Some(k) && k@ == sub.subkey_public@
        },
{
}

/// The reasons of the command line have the numbers of OpenPGP: 0 where nothing is said, 1
/// for a key that is superseded, 2 for one that is compromised and 3 for one that is retired.
pub proof fn reasons_have_their_numbers(r: RevocationReason)
    ensures
        r == RevocationReason::Unspecified <==> reason_number(openpgp_reason(r)) == 0,
        r == RevocationReason::Superseded <==> reason_number(openpgp_reason(r)) == 1,
        r == RevocationReason::Compromised <==> reason_number(openpgp_reason(r)) == 2,
        r == RevocationReason::Retired <==> reason_number(openpgp_reason(r)) == 3,
{
}

} // verus!
