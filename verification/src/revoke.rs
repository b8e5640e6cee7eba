//! The commands `cert-revoke` and `subkey-revoke`: standalone revocations, signed by a
//! primary key on a token.

use vstd::prelude::*;

use crate::access;
use crate::access::{Access, AccessArgs};
use crate::acquire::Progress;
use crate::assemble;
use crate::assemble::{
    CertRevocationSpec, KeySpec, ReasonForRevocation, RevocationPlan, RevocationReason,
    SubkeyRevocationSpec,
};
use crate::cert;
use crate::cert::{Cert, CertKey, Signature};
use crate::cli;
use crate::error;
use crate::error::Error;
use crate::openpgp;
use crate::openpgp::{Fingerprint, UnixTime};
use crate::output;
use crate::signer::Pkcs11Signer;
use crate::text;
use crate::time;

verus! {

// ---------------------------------------------------------------------------
// What both commands read
// ---------------------------------------------------------------------------

/// The options that both commands have.
#[derive(Debug)]
pub struct RevokeArgs {
    pub access: AccessArgs,
    pub creation_time: Option<String>,
    pub reason: RevocationReason,
    pub message: String,
    pub revocation_time: Option<String>,
}

/// Where a revocation is written: to a file, or to standard output; an existing file is
/// overwritten only by force.
#[derive(Debug)]
pub struct Destination {
    pub output: Option<Vec<u8>>,
    pub force: bool,
}

/// Whether the path of the output has to be looked at before the token is asked for
/// anything.
pub open spec fn must_look(d: Destination) -> bool {
    output::needs_preflight(access::path_view(d.output), d.force)
}

impl Destination {
    /// Whether the path of the output has to be looked at first.
    pub fn look(&self) -> (r: bool)
        ensures
            r == must_look(*self),
    {
        match &self.output {
            Some(p) => output::preflight_needed(Some(p), self.force),
            None => output::preflight_needed(None, self.force),
        }
    }
}

/// What the options say of a revocation.
#[derive(Debug)]
pub struct RevokeTerms {
    pub creation_time: UnixTime,
    pub reason: ReasonForRevocation,
    pub message: Vec<u8>,
    pub revocation_time: UnixTime,
}

/// The mathematical content of [`RevokeTerms`].
pub struct TermsView {
    pub creation_time: UnixTime,
    pub reason: ReasonForRevocation,
    pub message: Seq<u8>,
    pub revocation_time: UnixTime,
}

impl View for RevokeTerms {
    type V = TermsView;

    open spec fn view(&self) -> TermsView {
        TermsView {
            creation_time: self.creation_time,
            reason: self.reason,
            message: self.message@,
            revocation_time: self.revocation_time,
        }
    }
}

/// When the revocation takes effect: at the stated time, or else now.
pub open spec fn effective_time(stated: Option<String>, now: UnixTime) -> Result<
    UnixTime,
    error::ErrorView,
> {
    match stated {
        Some(ts) => time::time_of(ts@),
        None => Ok(now),
    }
}

/// Whether the machine's clock can express the times that the options state.
pub open spec fn is_timely(args: RevokeArgs) -> bool {
    &&& args.creation_time matches Some(ts) ==> time::time_known(ts@)
    &&& args.revocation_time matches Some(ts) ==> time::time_known(ts@)
}

/// What the options say: which key signs, and what it signs.
pub open spec fn terms_of(args: RevokeArgs, now: UnixTime) -> Result<
    (access::AccessView, TermsView),
    error::ErrorView,
> {
    match access::primary_access(args.access) {
        Err(e) => Err(e),
        Ok(access) => match args.creation_time {
            None => Err(time::missing_creation_time("--creation-time"@)),
            Some(ts) => match time::time_of(ts@) {
                Err(e) => Err(e),
                Ok(creation_time) => match effective_time(args.revocation_time, now) {
                    Err(e) => Err(e),
                    Ok(revocation_time) => Ok(
                        (
                            access,
                            TermsView {
                                creation_time,
                                reason: assemble::openpgp_reason(args.reason),
                                message: text::utf8(args.message@),
                                revocation_time,
                            },
                        ),
                    ),
                },
            },
        },
    }
}

fn read_terms(args: RevokeArgs, now: UnixTime) -> (r: Result<(Access, RevokeTerms), Error>)
    ensures
        !is_timely(args) ==> r is Err,
        is_timely(args) ==> match terms_of(args, now) {
            Ok((access, terms)) => r matches Ok((a, t)) && a@ == access && t@ == terms,
            Err(e) => error::fails_with(r, e),
        },
        r matches Ok((a, t)) ==> time::is_ordinary(t.creation_time),
{
    let access = match access::read_access(args.access) {
        Ok(a) => a,
        Err(e) => {
            return Err(e);
        },
    };
    let stated = match &args.creation_time {
        Some(ts) => time::require_creation_time(Some(ts.as_str()), "--creation-time"),
        None => time::require_creation_time(None, "--creation-time"),
    };
    let creation_time = match stated {
        Ok(t) => t,
        Err(e) => {
            return Err(e);
        },
    };
    let revocation_time = match &args.revocation_time {
        Some(ts) => match time::parse_creation_time(Some(ts.as_str())) {
            Ok(t) => t,
            Err(e) => {
                return Err(e);
            },
        },
        None => now,
    };
    let terms = RevokeTerms {
        creation_time,
        reason: ReasonForRevocation::from(args.reason),
        message: text::bytes_of(args.message.as_str()),
        revocation_time,
    };
    Ok((access, terms))
}

// ---------------------------------------------------------------------------
// cert-revoke
// ---------------------------------------------------------------------------

/// Sets out for the primary key that is to be revoked, unless a file would be
/// overwritten; `path` is the path of the output in messages, and `found` what was found
/// at it.
pub fn cmd_cert_revoke(
    args: RevokeArgs,
    destination: &Destination,
    now: UnixTime,
    path: &str,
    found: Option<Result<bool, String>>,
) -> (r: Result<(Progress, RevokeTerms), Error>)
    requires
        must_look(*destination) <==> found is Some,
    ensures
        match access::preflight_fault(path@, found) {
            Some(e) => error::fails_with(r, e),
            None => if !is_timely(args) {
                r is Err
            } else {
                match terms_of(args, now) {
                    Err(e) => error::fails_with(r, e),
                    Ok((access, terms)) => r matches Ok((p, t)) && access::sets_out(p, access) && t@
                        == terms,
                }
            },
        },
{
    match access::pass_preflight(path, found) {
        Ok(()) => {},
        Err(e) => {
            return Err(e);
        },
    }
    match read_terms(args, now) {
        Ok((access, terms)) => Ok((access.acquire(), terms)),
        Err(e) => Err(e),
    }
}

/// The revocation of the primary key `signer` by itself.
pub open spec fn cert_revocation(terms: RevokeTerms, signer: Pkcs11Signer) -> CertRevocationSpec {
    CertRevocationSpec {
        primary: KeySpec { signer, creation_time: terms.creation_time, validity_period: None },
        reason: terms.reason,
        message: terms.message,
        revocation_time: terms.revocation_time,
    }
}

impl RevokeTerms {
    /// Plans the revocation, once the primary key is there.
    pub fn revoke_cert(self, signer: Pkcs11Signer) -> (r: Result<RevocationPlan, Error>)
        ensures
            if self.creation_time.secs <= u32::MAX {
                r matches Ok(plan) && assemble::is_revocation_of(
                    plan,
                    cert_revocation(self, signer),
                )
            } else {
                error::fails_with(r, openpgp::unrepresentable_time(self.creation_time))
            },
    {
        assemble::build_cert_revocation(
            CertRevocationSpec {
                primary: KeySpec {
                    signer,
                    creation_time: self.creation_time,
                    validity_period: None,
                },
                reason: self.reason,
                message: self.message,
                revocation_time: self.revocation_time,
            },
        )
    }
}

// ---------------------------------------------------------------------------
// subkey-revoke
// ---------------------------------------------------------------------------

/// The options of `subkey-revoke`, read as far as no file is needed.
#[derive(Debug)]
pub struct SubkeyRevoke {
    pub access: Access,
    pub terms: RevokeTerms,
    pub fingerprint: String,
    pub destination: Destination,
}

/// What is left once it is clear that no file will be overwritten: the subkey with the
/// fingerprint `target` is to be revoked.
#[derive(Debug)]
pub struct SubkeyTarget {
    pub access: Access,
    pub terms: RevokeTerms,
    pub target: Fingerprint,
}

/// What is left while the primary key is being acquired: the subkey, and the fingerprint
/// of the primary key of its certificate.
#[derive(Debug)]
pub struct SubkeyRevokeRest {
    pub terms: RevokeTerms,
    pub subkey: CertKey,
    pub primary: Fingerprint,
}

/// Reads the options; `fingerprint` is the one of `--subkey-fingerprint`.
pub fn cmd_subkey_revoke(
    args: RevokeArgs,
    fingerprint: String,
    destination: Destination,
    now: UnixTime,
) -> (r: Result<SubkeyRevoke, Error>)
    ensures
        if !is_timely(args) {
            r is Err
        } else {
            match terms_of(args, now) {
                Err(e) => error::fails_with(r, e),
                Ok((access, terms)) => r matches Ok(x) && x.access@ == access && x.terms@ == terms
                    && x.fingerprint == fingerprint && x.destination == destination,
            }
        },
        r matches Ok(x) ==> time::is_ordinary(x.terms.creation_time),
{
    match read_terms(args, now) {
        Ok((access, terms)) => Ok(SubkeyRevoke { access, terms, fingerprint, destination }),
        Err(e) => Err(e),
    }
}

impl SubkeyRevoke {
    /// Goes on to the certificate, unless a file would be overwritten.
    pub fn passed(self, path: &str, found: Option<Result<bool, String>>) -> (r: Result<
        SubkeyTarget,
        Error,
    >)
        requires
            must_look(self.destination) <==> found is Some,
        ensures
            match access::preflight_fault(path@, found) {
                Some(e) => error::fails_with(r, e),
                None => match cli::full_fingerprint(self.fingerprint@) {
                    Err(e) => error::fails_with(r, e),
                    Ok(f) => r matches Ok(x) && x.access == self.access && x.terms == self.terms
                        && x.target@ == f,
                },
            },
    {
        match access::pass_preflight(path, found) {
            Ok(()) => {},
            Err(e) => {
                return Err(e);
            },
        }
        match cli::parse_full_fingerprint(self.fingerprint.as_str()) {
            Ok(target) => Ok(SubkeyTarget { access: self.access, terms: self.terms, target }),
            Err(e) => Err(e),
        }
    }
}

impl SubkeyTarget {
    /// Sets out for the primary key, once the certificate is there and the subkey is
    /// found in it.
    pub fn with_cert(self, c: &Cert) -> (r: Result<(Progress, SubkeyRevokeRest), Error>)
        ensures
            ({
                let keys = cert::key_views(c.subkeys@);
                let i = cli::first_with(keys, self.target@);
                if i < keys.len() {
                    r matches Ok((p, rest)) && {
                        &&& access::sets_out(p, self.access@)
                        &&& rest.terms == self.terms
                        &&& rest.subkey@ == keys[i]
                        &&& rest.primary@ == c.primary@.fingerprint
                    }
                } else {
                    error::fails_with(r, cli::no_such_subkey(self.target@))
                }
            }),
            r matches Ok((p, rest)) ==> is_rest_of(rest, self, *c) && access::sets_out(
                p,
                self.access@,
            ),
    {
        match cli::locate_subkey_in_cert(c, &self.target) {
            Ok(subkey) => Ok(
                (
                    self.access.acquire(),
                    SubkeyRevokeRest {
                        terms: self.terms,
                        subkey,
                        primary: c.primary.fingerprint.clone(),
                    },
                ),
            ),
            Err(e) => Err(e),
        }
    }
}

/// What is said where the key on the token is not the primary key of the certificate.
pub open spec fn other_primary(published: Seq<u8>, on_token: Seq<u8>) -> error::ErrorView {
    error::ErrorView::Other(
        "primary fingerprint mismatch: --input-cert primary is "@ + openpgp::upper_hex(published)
            + ", selected HSM primary is "@ + openpgp::upper_hex(on_token)
            + " (check --key-label/--creation-time match the input cert)"@,
    )
}

/// Whether the key on the token is the primary key of the certificate.
pub fn check_primary(published: &Fingerprint, on_token: &Fingerprint) -> (r: Result<(), Error>)
    ensures
        if published@ == on_token@ {
            r is Ok
        } else {
            error::fails_with(r, other_primary(published@, on_token@))
        },
{
    if on_token.same(published) {
        return Ok(());
    }
    let mut message = text::join3(
        "primary fingerprint mismatch: --input-cert primary is ",
        published.text().as_str(),
        ", selected HSM primary is ",
    );
    message.append(on_token.text().as_str());
    message.append(" (check --key-label/--creation-time match the input cert)");
    Err(Error::Other(message))
}

/// The revocation of a subkey by the primary key `signer`.
pub open spec fn subkey_revocation(rest: SubkeyRevokeRest, signer: Pkcs11Signer) ->
    SubkeyRevocationSpec {
    SubkeyRevocationSpec {
        primary: KeySpec { signer, creation_time: rest.terms.creation_time, validity_period: None },
        subkey_public: rest.subkey,
        reason: rest.terms.reason,
        message: rest.terms.message,
        revocation_time: rest.terms.revocation_time,
    }
}

impl SubkeyRevokeRest {
    /// Plans the revocation, once the primary key is there.  It is refused unless that
    /// key, stamped with its creation time, is the primary key of the certificate: no
    /// key revokes the subkey of another.
    pub fn revoke_subkey(self, signer: Pkcs11Signer) -> (r: Result<RevocationPlan, Error>)
        requires
            openpgp::usable(signer.public@),
            time::is_ordinary(self.terms.creation_time),
        ensures
            if self.terms.creation_time.secs > u32::MAX {
                error::fails_with(r, openpgp::unrepresentable_time(self.terms.creation_time))
            } else {
                let f = openpgp::v4_fingerprint(
                    self.terms.creation_time.secs as u32,
                    signer.public@.mpis,
                );
                if self.primary@ != f {
                    error::fails_with(r, other_primary(self.primary@, f))
                } else {
                    r matches Ok(plan) && assemble::is_subkey_revocation_of(
                        plan,
                        subkey_revocation(self, signer),
                    )
                }
            },
    {
        let stamped = match openpgp::Key::new(
            self.terms.creation_time,
            signer.public.pk_algo,
            signer.public.mpis.clone(),
        ) {
            Ok(k) => k,
            Err(e) => {
                return Err(e);
            },
        };
        match check_primary(&self.primary, &stamped.fingerprint()) {
            Ok(()) => {},
            Err(e) => {
                return Err(e);
            },
        }
        assemble::build_subkey_revocation(
            SubkeyRevocationSpec {
                primary: KeySpec {
                    signer,
                    creation_time: self.terms.creation_time,
                    validity_period: None,
                },
                subkey_public: self.subkey,
                reason: self.terms.reason,
                message: self.terms.message,
                revocation_time: self.terms.revocation_time,
            },
        )
    }
}

// ---------------------------------------------------------------------------
// What is written
// ---------------------------------------------------------------------------

/// The bytes of a revocation: its packet, or its armor.
pub open spec fn revocation_bytes(body: Seq<u8>, binary: bool) -> Seq<u8> {
    if binary {
        cert::signature_packet(body)
    } else {
        text::utf8(
            cert::armored(seq![cert::revocation_comment()], cert::signature_packet(body)),
        )
    }
}

/// The bytes of a revocation, as they are written.  Without the armor they are those of the
/// binary form.
pub fn write_revocation_output(sig: &Signature, binary: bool) -> (r: Result<Vec<u8>, Error>)
    requires
        sig.body@.len() <= u32::MAX,
    ensures
        r matches Ok(out) && out@ == revocation_bytes(sig.body@, binary) && (!binary
            ==> cert::unarmored(out@) == Ok::<Seq<u8>, Seq<char>>(
            revocation_bytes(sig.body@, true),
        )),
{
    if binary {
        cert::export_binary_signature(sig)
    } else {
        match cert::export_armored_signature(sig) {
            Ok(t) => Ok(text::bytes_of(t.as_str())),
            Err(e) => Err(e),
        }
    }
}

// ---------------------------------------------------------------------------
// Laws
// ---------------------------------------------------------------------------

/// A subkey is revoked only by the primary key of the certificate that it was found in.
pub proof fn only_the_own_primary_revokes(
    rest: SubkeyRevokeRest,
    signer: Pkcs11Signer,
    plan: RevocationPlan,
)
    requires
        assemble::is_subkey_revocation_of(plan, subkey_revocation(rest, signer)),
        rest.primary@ == openpgp::v4_fingerprint(
            rest.terms.creation_time.secs as u32,
            signer.public@.mpis,
        ),
    ensures
        openpgp::v4_fingerprint(plan.primary.public@.creation_time, plan.primary.public@.mpis)
            == rest.primary@,
        plan.subkey == Some(rest.subkey),
{
}

/// The revocation of a primary key has the reason, the message and the time of the terms
/// that it is made from, and is made by that key with the creation time of the terms.
pub proof fn revocations_keep_the_terms(
    terms: RevokeTerms,
    signer: Pkcs11Signer,
    plan: RevocationPlan,
)
    requires
        assemble::is_revocation_of(plan, cert_revocation(terms, signer)),
        terms.creation_time.secs <= u32::MAX,
    ensures
        plan.reason == terms.reason,
        plan.message@ == terms.message@,
        plan.revocation_time == terms.revocation_time,
        plan.subkey is None,
        plan.primary.priv_handle == signer.priv_handle,
        plan.primary.key_type == signer.key_type,
        plan.primary.public@.mpis == signer.public@.mpis,
        plan.primary.public@.creation_time == terms.creation_time.secs,
        plan.hash == cert::matching_hash(signer.public@),
{
}

/// The revocation of a subkey has the reason, the message and the time of the terms that it
/// is made from; it is of the subkey that was found, and is made by the primary key with
/// the creation time of the terms.
pub proof fn subkey_revocations_keep_the_terms(
    rest: SubkeyRevokeRest,
    signer: Pkcs11Signer,
    plan: RevocationPlan,
)
    requires
        assemble::is_subkey_revocation_of(plan, subkey_revocation(rest, signer)),
        rest.terms.creation_time.secs <= u32::MAX,
    ensures
        plan.reason == rest.terms.reason,
        plan.message@ == rest.terms.message@,
        plan.revocation_time == rest.terms.revocation_time,
        plan.subkey matches Some(k) && k@ == rest.subkey@,
        plan.primary.priv_handle == signer.priv_handle,
        plan.primary.key_type == signer.key_type,
        plan.primary.public@.mpis == signer.public@.mpis,
        plan.primary.public@.creation_time == rest.terms.creation_time.secs,
        plan.hash == cert::matching_hash(signer.public@),
{
}

/// The terms of a revocation are what the options say: the key of the access options; the
/// creation time, which must be stated; the reason; the bytes of the message; and the time
/// of the revocation, which is now where none is stated.
pub proof fn terms_are_the_options(args: RevokeArgs, now: UnixTime)
    ensures
        terms_of(args, now) is Ok <==> {
            &&& access::primary_access(args.access) is Ok
            &&& args.creation_time matches Some(ts) && time::time_of(ts@) is Ok
            &&& args.revocation_time matches Some(ts) ==> time::time_of(ts@) is Ok
        },
        terms_of(args, now) matches Ok((access, terms)) ==> {
            &&& access::primary_access(args.access) == Ok::<access::AccessView, error::ErrorView>(
                access,
            )
            &&& time::time_of(args.creation_time->0@) == Ok::<UnixTime, error::ErrorView>(
                terms.creation_time,
            )
            &&& terms.message == vstd::utf8::encode_utf8(args.message@)
            &&& args.revocation_time is None ==> terms.revocation_time == now
            &&& args.revocation_time matches Some(ts) ==> time::time_of(ts@) == Ok::<
                UnixTime,
                error::ErrorView,
            >(terms.revocation_time)
            &&& args.reason == RevocationReason::Unspecified <==> assemble::reason_number(
                terms.reason,
            ) == 0
            &&& args.reason == RevocationReason::Superseded <==> assemble::reason_number(
                terms.reason,
            ) == 1
            &&& args.reason == RevocationReason::Compromised <==> assemble::reason_number(
                terms.reason,
            ) == 2
            &&& args.reason == RevocationReason::Retired <==> assemble::reason_number(terms.reason)
                == 3
        },
{
}

/// From the command line on: the plan of a revocation, of a primary key or of a subkey,
/// states the reason of `--reason` by its number (0 unspecified, 1 superseded, 2
/// compromised, 3 retired), the bytes of `--message`, and the time of `--revocation-time`
/// or, without one, the current time.
pub proof fn options_reach_the_plan(
    args: RevokeArgs,
    now: UnixTime,
    terms: RevokeTerms,
    rest: SubkeyRevokeRest,
    signer: Pkcs11Signer,
    plan: RevocationPlan,
)
    requires
        terms_of(args, now) matches Ok((access, view)) && terms@ == view,
        rest.terms == terms,
        terms.creation_time.secs <= u32::MAX,
        assemble::is_subkey_revocation_of(plan, subkey_revocation(rest, signer))
            || assemble::is_revocation_of(plan, cert_revocation(terms, signer)),
    ensures
        args.reason == RevocationReason::Unspecified ==> assemble::reason_number(plan.reason) == 0,
        args.reason == RevocationReason::Superseded ==> assemble::reason_number(plan.reason) == 1,
        args.reason == RevocationReason::Compromised ==> assemble::reason_number(plan.reason) == 2,
        args.reason == RevocationReason::Retired ==> assemble::reason_number(plan.reason) == 3,
        plan.message@ == vstd::utf8::encode_utf8(args.message@),
        args.revocation_time is None ==> plan.revocation_time == now,
        args.revocation_time matches Some(ts) ==> time::time_of(ts@) == Ok::<
            UnixTime,
            error::ErrorView,
        >(plan.revocation_time),
        time::time_of(args.creation_time->0@) == Ok::<UnixTime, error::ErrorView>(
            terms.creation_time,
        ),
        plan.primary.public@.creation_time == terms.creation_time.secs,
{
    terms_are_the_options(args, now);
}

/// `rest` is what is left of `t` once the certificate is there.
pub open spec fn is_rest_of(rest: SubkeyRevokeRest, t: SubkeyTarget, c: Cert) -> bool {
    let keys = cert::key_views(c.subkeys@);
    let i = cli::first_with(keys, t.target@);
    &&& i < keys.len()
    &&& rest.terms == t.terms
    &&& rest.subkey@ == keys[i]
    &&& rest.primary@ == c.primary@.fingerprint
}

/// The subkey that is revoked is one of the certificate, with the fingerprint that was
/// asked for; the certificate is that of the primary key that has to sign, and the terms
/// stay as they are.
pub proof fn the_target_is_revoked(rest: SubkeyRevokeRest, t: SubkeyTarget, c: Cert)
    requires
        is_rest_of(rest, t, c),
    ensures
        rest.subkey@.fingerprint == t.target@,
        exists|i: int|
            0 <= i < c.subkeys@.len() && (#[trigger] c.subkeys@[i])@ == rest.subkey@,
        rest.primary@ == c.primary@.fingerprint,
        rest.terms@.reason == t.terms@.reason,
        rest.terms@.message == t.terms@.message,
        rest.terms@.revocation_time == t.terms@.revocation_time,
        rest.terms@.creation_time == t.terms@.creation_time,
{
    let keys = cert::key_views(c.subkeys@);
    cli::located_subkey_is_right(keys, t.target@);
    let i = cli::first_with(keys, t.target@);
    assert(c.subkeys@[i]@ == keys[i]);
}

/// What is written of a revocation is its packet, in binary form or in armor.
pub proof fn revocations_are_packets(body: Seq<u8>)
    ensures
        revocation_bytes(body, true) == cert::signature_packet(body),
        revocation_bytes(body, false) == vstd::utf8::encode_utf8(
            cert::armored(seq![cert::revocation_comment()], cert::signature_packet(body)),
        ),
{
}

} // verus!
