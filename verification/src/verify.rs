//! The command `verify-signing-key`: whether a key on a token is one that a published
//! certificate lets sign.

use vstd::prelude::*;

use crate::access;
use crate::access::AccessArgs;
use crate::acquire::Progress;
use crate::assemble;
use crate::cert;
use crate::cert::Cert;
use crate::error;
use crate::error::Error;
use crate::openpgp;
use crate::openpgp::{Fingerprint, UnixTime};
use crate::signer::Pkcs11Signer;
use crate::text;
use crate::time;

verus! {

// ---------------------------------------------------------------------------
// The verdict
// ---------------------------------------------------------------------------

/// Whether a certificate has a key with the fingerprint.
pub open spec fn is_bound(c: Cert, f: Seq<u8>) -> bool {
    c.primary@.fingerprint == f || assemble::binds(c, f)
}

/// What is said of the key on the token: its fingerprint is in the certificate and is
/// one of the current signing keys, is in it and is none of them, or is not in it.
pub open spec fn signer_verdict(
    f: Seq<u8>,
    c: Cert,
    name: Seq<char>,
    signers: Seq<Seq<u8>>,
    now: UnixTime,
) -> Result<Seq<char>, Seq<char>> {
    if !is_bound(c, f) {
        Err(not_bound(f, name))
    } else if !signers.contains(f) {
        Err(
            "HSM key "@ + openpgp::upper_hex(f) + " is present in "@ + name
                + " but is not currently a valid signer at "@ + time::rfc3339_text(now.secs)
                + " (revoked, expired, or not signing-capable)"@,
        )
    } else {
        Ok("HSM key "@ + openpgp::upper_hex(f) + " is a current signing key of "@ + name)
    }
}

fn has_key(c: &Cert, f: &Fingerprint) -> (r: bool)
    ensures
        r == is_bound(*c, f@),
{
    c.primary.fingerprint.same(f) || assemble::has_subkey(c, f)
}

fn lists(signers: &Vec<Fingerprint>, f: &Fingerprint) -> (r: bool)
    ensures
        r == cert::fingerprint_views(signers@).contains(f@),
{
    let ghost views = cert::fingerprint_views(signers@);
    let mut i: usize = 0;
    while i < signers.len()
        invariant
            i <= signers.len(),
            views == cert::fingerprint_views(signers@),
            forall|k: int| 0 <= k < i ==> #[trigger] views[k] != f@,
        decreases signers.len() - i,
    {
        if signers[i].same(f) {
            assert(views[i as int] == f@);
            return true;
        }
        i += 1;
    }
    false
}

/// What is said of the key on the token with the fingerprint `f`.  The certificate `c` is
/// called `name`, and `signers` are the keys that it lets sign at the time `now`.
pub fn judge_signing_key(
    f: &Fingerprint,
    c: &Cert,
    name: &str,
    signers: &Vec<Fingerprint>,
    now: UnixTime,
) -> (r: Result<String, Error>)
    requires
        time::is_ordinary(now),
    ensures
        is_said(r, signer_verdict(f@, *c, name@, cert::fingerprint_views(signers@), now)),
{
    let mut message = text::join2("HSM key ", f.text().as_str());
    if !has_key(c, f) {
        message.append(" is not bound to ");
        message.append(name);
        return Err(Error::Other(message));
    }
    if !lists(signers, f) {
        message.append(" is present in ");
        message.append(name);
        message.append(" but is not currently a valid signer at ");
        message.append(time::format_rfc3339(now.secs).as_str());
        message.append(" (revoked, expired, or not signing-capable)");
        return Err(Error::Other(message));
    }
    message.append(" is a current signing key of ");
    message.append(name);
    Ok(message)
}

/// The keys that a certificate lets sign, if it is of interest: of a key that is not in
/// it, they say nothing.
pub(crate) fn relevant_signers(f: &Fingerprint, c: &Cert, now: UnixTime) -> (r: Result<
    Vec<Fingerprint>,
    Error,
>)
    requires
        time::is_ordinary(now),
        now.nanos < 1_000_000_000,
    ensures
        !is_bound(*c, f@) ==> r is Ok,
        is_bound(*c, f@) ==> match cert::reading_fault(c.data@) {
            Some(e) => error::fails_with(r, e),
            None => r is Ok,
        },
        is_bound(*c, f@) ==> (r matches Ok(signers) ==> cert::are_signers(
            cert::fingerprint_views(signers@),
            c.data@,
            now,
        )),
{
    if has_key(c, f) {
        cert::current_signers(c, now)
    } else {
        Ok(Vec::new())
    }
}

/// What is said of a key that is not in the certificate `name`.
pub open spec fn not_bound(f: Seq<u8>, name: Seq<char>) -> Seq<char> {
    "HSM key "@ + openpgp::upper_hex(f) + " is not bound to "@ + name
}

/// Whether `r` is the verdict `v`.
pub open spec fn is_said(r: Result<String, Error>, v: Result<Seq<char>, Seq<char>>) -> bool {
    match v {
        Ok(message) => r matches Ok(m) && m@ == message,
        Err(message) => error::fails_with(r, error::ErrorView::Other(message)),
    }
}

/// `r` is what is said of the key with the fingerprint `f` by what is reported of the keys
/// of the certificate at the time `now`; of a key that is not in it, this is fixed.  A
/// certificate that cannot be read is reported.
pub open spec fn is_verdict(
    r: Result<String, Error>,
    f: Seq<u8>,
    c: Cert,
    name: Seq<char>,
    now: UnixTime,
) -> bool {
    &&& r is Ok ==> is_bound(c, f) && cert::is_key_of(c.data@, f)
    &&& if !is_bound(c, f) {
        error::fails_with(r, error::ErrorView::Other(not_bound(f, name)))
    } else {
        match cert::reading_fault(c.data@) {
            Some(e) => error::fails_with(r, e),
            None => exists|signers: Seq<Seq<u8>>|
                cert::are_signers(signers, c.data@, now) && is_said(
                    r,
                    #[trigger] signer_verdict(f, c, name, signers, now),
                ),
        }
    }
}

/// Whether the key on the token is a current signing key of the certificate `c`, which
/// is called `name`.  A key that is not in the certificate is refused; of one that is in
/// it, the certificate's own signatures decide.
pub fn verify_signing_key(f: &Fingerprint, c: &Cert, name: &str, now: UnixTime) -> (r: Result<
    String,
    Error,
>)
    requires
        time::is_ordinary(now),
        now.nanos < 1_000_000_000,
    ensures
        is_verdict(r, f@, *c, name@, now),
{
    match relevant_signers(f, c, now) {
        Ok(signers) => {
            let ghost views = cert::fingerprint_views(signers@);
            assert(is_bound(*c, f@) && views.contains(f@) ==> cert::is_key_of(c.data@, f@));
            judge_signing_key(f, c, name, &signers, now)
        },
        Err(e) => Err(e),
    }
}

// ---------------------------------------------------------------------------
// verify-signing-key
// ---------------------------------------------------------------------------

/// What is left to do once the key is acquired: it is stamped and looked up.
#[derive(Debug)]
pub struct VerifyRest {
    pub creation_time: UnixTime,
}

/// Sets out for the key that is to be verified.  Its creation time has to be stated: one
/// that is taken from the certificate would agree with it by construction.
pub fn cmd_verify_signing_key(args: AccessArgs, creation_time: Option<String>) -> (r: Result<
    (Progress, VerifyRest),
    Error,
>)
    ensures
        match access::primary_access(args) {
            Err(e) => error::fails_with(r, e),
            Ok(access) => match creation_time {
                None => error::fails_with(r, time::missing_creation_time("--creation-time"@)),
                Some(ts) => match r {
                    Ok((p, rest)) => access::sets_out(p, access) && time::is_time_of(
                        ts@,
                        Ok(rest.creation_time),
                    ),
                    Err(e) => time::is_time_of(ts@, Err(e)),
                },
            },
        },
{
    let access = match access::read_access(args) {
        Ok(a) => a,
        Err(e) => {
            return Err(e);
        },
    };
    let stated = match &creation_time {
        Some(ts) => Some(ts.as_str()),
        None => None,
    };
    match time::require_creation_time(stated, "--creation-time") {
        Ok(creation_time) => Ok((access.acquire(), VerifyRest { creation_time })),
        Err(e) => Err(e),
    }
}

impl VerifyRest {
    /// Whether the key that was acquired is a current signing key of the certificate `c`,
    /// which is called `name`, at the time `now`.
    pub fn with_cert(self, signer: Pkcs11Signer, c: &Cert, name: &str, now: UnixTime) -> (r: Result<
        String,
        Error,
    >)
        requires
            openpgp::usable(signer.public@),
            time::is_ordinary(self.creation_time),
            time::is_ordinary(now),
            now.nanos < 1_000_000_000,
        ensures
            self.creation_time.secs > u32::MAX ==> error::fails_with(
                r,
                openpgp::unrepresentable_time(self.creation_time),
            ),
            self.creation_time.secs <= u32::MAX ==> is_verdict(
                r,
                openpgp::v4_fingerprint(self.creation_time.secs as u32, signer.public@.mpis),
                *c,
                name@,
                now,
            ),
    {
        let mut signer = signer;
        match signer.set_creation_time(self.creation_time) {
            Ok(()) => {},
            Err(e) => {
                return Err(e);
            },
        }
        let f = signer.public.fingerprint();
        verify_signing_key(&f, c, name, now)
    }
}

// ---------------------------------------------------------------------------
// Laws
// ---------------------------------------------------------------------------

/// The keys that a certificate binds are exactly the keys in its bytes.
pub proof fn bound_keys_are_its_keys(c: Cert, f: Seq<u8>)
    requires
        cert::is_read(c),
    ensures
        is_bound(c, f) <==> cert::is_key_of(c.data@, f),
{
    cert::keys_are_in_the_bytes(c, f);
}

/// A key passes only if it is reported of it, for this certificate and this time, that it
/// is alive, not revoked, and a signing key.
pub proof fn passed_keys_are_reported(signers: Seq<Seq<u8>>, data: Seq<u8>, now: UnixTime, f: Seq<u8>)
    requires
        cert::are_signers(signers, data, now),
        signers.contains(f),
    ensures
        exists|s: Seq<cert::KeyStatusView>, i: int| #[trigger]
            cert::reported(data, now.secs, now.nanos, s) && 0 <= i < s.len() && cert::may_sign(
                #[trigger] s[i],
            ) && s[i].fingerprint == f,
{
    let s = choose|s: Seq<cert::KeyStatusView>| #[trigger]
        cert::reported(data, now.secs, now.nanos, s) && signers == cert::signing_keys(s);
    cert::signing_keys_may_sign(s, f);
    let i = choose|i: int|
        0 <= i < s.len() && cert::may_sign(#[trigger] s[i]) && s[i].fingerprint == f;
    assert(cert::may_sign(s[i]));
}

/// A key that the certificate does not let sign is not used, unless the check is skipped:
/// it has to be in the certificate, and to be one of its current signing keys.
pub proof fn signers_are_current(
    f: Seq<u8>,
    c: Cert,
    name: Seq<char>,
    signers: Seq<Seq<u8>>,
    now: UnixTime,
)
    ensures
        signer_verdict(f, c, name, signers, now) is Ok <==> is_bound(c, f) && signers.contains(f),
{
}

/// A certificate binds a key exactly if its primary key or one of its subkeys has the
/// fingerprint.
pub proof fn keys_are_bound_by_fingerprint(c: Cert, f: Seq<u8>)
    ensures
        is_bound(c, f) <==> c.primary@.fingerprint == f || exists|i: int|
            0 <= i < c.subkeys@.len() && (#[trigger] c.subkeys@[i])@.fingerprint == f,
{
}

/// A key on a token passes only if it is in the certificate and it is reported of it, for
/// that certificate and that time, that it is alive, not revoked and a signing key.  A key
/// that is not in the certificate never passes.
pub proof fn verdicts_are_reported(
    r: Result<String, Error>,
    f: Seq<u8>,
    c: Cert,
    name: Seq<char>,
    now: UnixTime,
)
    requires
        is_verdict(r, f, c, name, now),
    ensures
        !is_bound(c, f) ==> r is Err,
        r is Ok ==> is_bound(c, f) && exists|s: Seq<cert::KeyStatusView>, i: int| #[trigger]
            cert::reported(c.data@, now.secs, now.nanos, s) && 0 <= i < s.len() && cert::may_sign(
                #[trigger] s[i],
            ) && s[i].fingerprint == f,
{
    if r is Ok {
        let signers = choose|signers: Seq<Seq<u8>>|
            cert::are_signers(signers, c.data@, now) && is_said(
                r,
                #[trigger] signer_verdict(f, c, name, signers, now),
            );
        signers_are_current(f, c, name, signers, now);
        passed_keys_are_reported(signers, c.data@, now, f);
    }
}

/// Whatever is said of a key names it by its fingerprint, and its certificate.
pub proof fn verdicts_name_the_key(
    f: Seq<u8>,
    c: Cert,
    name: Seq<char>,
    signers: Seq<Seq<u8>>,
    now: UnixTime,
)
    ensures
        ({
            let said = match signer_verdict(f, c, name, signers, now) {
                Ok(m) => m,
                Err(m) => m,
            };
            exists|middle: Seq<char>, rest: Seq<char>|
                said == "HSM key "@ + openpgp::upper_hex(f) + middle + name + rest
        }),
{
    let middle = if !is_bound(c, f) {
        " is not bound to "@
    } else if !signers.contains(f) {
        " is present in "@
    } else {
        " is a current signing key of "@
    };
    let rest = if is_bound(c, f) && !signers.contains(f) {
        " but is not currently a valid signer at "@ + time::rfc3339_text(now.secs)
            + " (revoked, expired, or not signing-capable)"@
    } else {
        Seq::empty()
    };
    let said = match signer_verdict(f, c, name, signers, now) {
        Ok(m) => m,
        Err(m) => m,
    };
    assert(said =~= "HSM key "@ + openpgp::upper_hex(f) + middle + name + rest);
}

/// A key of a certificate that can be read is refused only if something is reported of the
/// certificate, for that time, by which no current signing key has its fingerprint.
pub proof fn refusals_are_reported(
    r: Result<String, Error>,
    f: Seq<u8>,
    c: Cert,
    name: Seq<char>,
    now: UnixTime,
)
    requires
        is_verdict(r, f, c, name, now),
        is_bound(c, f),
        cert::reading_fault(c.data@) is None,
        r is Err,
    ensures
        exists|s: Seq<cert::KeyStatusView>| #[trigger]
            cert::reported(c.data@, now.secs, now.nanos, s) && forall|i: int|
                0 <= i < s.len() && (#[trigger] s[i]).fingerprint == f ==> !(s[i].alive
                    && s[i].signing && !s[i].revoked && !s[i].cert_revoked),
{
    let signers = choose|signers: Seq<Seq<u8>>|
        cert::are_signers(signers, c.data@, now) && is_said(
            r,
            #[trigger] signer_verdict(f, c, name, signers, now),
        );
    signers_are_current(f, c, name, signers, now);
    unlisted_keys_are_reported(signers, c.data@, now, f);
}

/// A key that is not among the current signing keys is one of which that is reported.
pub proof fn unlisted_keys_are_reported(
    signers: Seq<Seq<u8>>,
    data: Seq<u8>,
    now: UnixTime,
    f: Seq<u8>,
)
    requires
        cert::are_signers(signers, data, now),
        !signers.contains(f),
    ensures
        exists|s: Seq<cert::KeyStatusView>| #[trigger]
            cert::reported(data, now.secs, now.nanos, s) && forall|i: int|
                0 <= i < s.len() && (#[trigger] s[i]).fingerprint == f ==> !(s[i].alive
                    && s[i].signing && !s[i].revoked && !s[i].cert_revoked),
{
    let s = choose|s: Seq<cert::KeyStatusView>| #[trigger]
        cert::reported(data, now.secs, now.nanos, s) && signers == cert::signing_keys(s);
    cert::signing_keys_may_sign(s, f);
    assert forall|i: int| 0 <= i < s.len() && (#[trigger] s[i]).fingerprint == f implies !(s[i].alive
        && s[i].signing && !s[i].revoked && !s[i].cert_revoked) by {
        cert::signers_are_alive_and_not_revoked(s[i]);
    }
}

} // verus!
