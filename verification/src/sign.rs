//! The command `sign`: what it decides before it asks a token for anything, and after.
//!
//! The command is a chain of steps.  Each step takes what was read in the meantime and
//! gives the next one; the way to the token leads only through the step that has seen
//! that no file will be overwritten.

use vstd::prelude::*;

use crate::access;
use crate::access::{Access, AccessArgs};
use crate::acquire::Progress;
use crate::assemble;
use crate::cert;
use crate::cert::{Cert, CertKey};
use crate::error;
use crate::error::Error;
use crate::openpgp;
use crate::openpgp::{Curve, Fingerprint, HashAlgorithm, Key, PublicKey, UnixTime};
use crate::output;
use crate::signer::Pkcs11Signer;
use crate::text;
use crate::time;
use crate::verify;

verus! {

// ---------------------------------------------------------------------------
// Key algorithms
// ---------------------------------------------------------------------------

/// The key algorithms that `--require-key-algo` names.
#[derive(Debug, Clone, Copy, PartialEq, Eq, Structural)]
pub enum KeyAlgo {
    Rsa2048,
    Rsa3072,
    Rsa4096,
    P256,
    P384,
    P521,
}

/// The name of a key algorithm on the command line.
pub open spec fn algo_text(a: KeyAlgo) -> Seq<char> {
    match a {
        KeyAlgo::Rsa2048 => "rsa2048"@,
        KeyAlgo::Rsa3072 => "rsa3072"@,
        KeyAlgo::Rsa4096 => "rsa4096"@,
        KeyAlgo::P256 => "p256"@,
        KeyAlgo::P384 => "p384"@,
        KeyAlgo::P521 => "p521"@,
    }
}

/// Whether a key is exactly of an algorithm: an RSA key of that size, or a point on
/// that curve.
pub open spec fn is_of_algo(key: openpgp::PublicKeyView, a: KeyAlgo) -> bool {
    match key {
        openpgp::PublicKeyView::RSA { e, n } => {
            let bits = crate::bytes::bit_length(crate::bytes::be_value(n));
            ||| a == KeyAlgo::Rsa2048 && bits == 2048
            ||| a == KeyAlgo::Rsa3072 && bits == 3072
            ||| a == KeyAlgo::Rsa4096 && bits == 4096
        },
        openpgp::PublicKeyView::ECDSA { curve, q } => {
            ||| a == KeyAlgo::P256 && curve is NistP256
            ||| a == KeyAlgo::P384 && curve is NistP384
            ||| a == KeyAlgo::P521 && curve is NistP521
        },
        openpgp::PublicKeyView::Other => false,
    }
}

/// What is said of a key that is not of the required algorithm.
pub open spec fn wrong_algo(a: KeyAlgo) -> error::ErrorView {
    error::ErrorView::Other(
        "refusing to sign: the selected key is not "@ + algo_text(a)
            + " as --require-key-algo demands"@,
    )
}

fn algo_name(a: KeyAlgo) -> (s: &'static str)
    ensures
        s@ == algo_text(a),
{
    match a {
        KeyAlgo::Rsa2048 => "rsa2048",
        KeyAlgo::Rsa3072 => "rsa3072",
        KeyAlgo::Rsa4096 => "rsa4096",
        KeyAlgo::P256 => "p256",
        KeyAlgo::P384 => "p384",
        KeyAlgo::P521 => "p521",
    }
}

/// Whether `key` is of the algorithm `required`, where one is required.  The match is
/// exact: a larger key is another key.
pub fn check_key_algo(key: &PublicKey, required: Option<KeyAlgo>) -> (r: Result<(), Error>)
    requires
        key@ matches openpgp::PublicKeyView::RSA { e, n } ==> n.len() * 8 <= usize::MAX,
    ensures
        match required {
            Some(a) => if is_of_algo(key@, a) {
                r is Ok
            } else {
                error::fails_with(r, wrong_algo(a))
            },
            None => r is Ok,
        },
{
    let a = match required {
        Some(a) => a,
        None => {
            return Ok(());
        },
    };
    let fits = match key {
        PublicKey::RSA { n, .. } => {
            let bits: usize = crate::bytes::rsa_modulus_bit_length(n.as_slice());
            (a == KeyAlgo::Rsa2048 && bits == 2048) || (a == KeyAlgo::Rsa3072 && bits == 3072) || (a
                == KeyAlgo::Rsa4096 && bits == 4096)
        },
        PublicKey::ECDSA { curve, .. } => match curve {
            Curve::NistP256 => a == KeyAlgo::P256,
            Curve::NistP384 => a == KeyAlgo::P384,
            Curve::NistP521 => a == KeyAlgo::P521,
            _ => false,
        },
        PublicKey::Other => false,
    };
    if fits {
        Ok(())
    } else {
        Err(
            Error::Other(
                text::join3(
                    "refusing to sign: the selected key is not ",
                    algo_name(a),
                    " as --require-key-algo demands",
                ),
            ),
        )
    }
}

// ---------------------------------------------------------------------------
// The keys of a certificate and the key on the token
// ---------------------------------------------------------------------------

/// The keys of a certificate, the primary key first.
pub open spec fn all_keys(c: Cert) -> Seq<cert::CertKeyView> {
    seq![c.primary@] + cert::key_views(c.subkeys@)
}

/// The index of the first key with the given material, or the number of keys.
pub open spec fn first_with_material(
    keys: Seq<cert::CertKeyView>,
    m: openpgp::PublicKeyView,
) -> int
    decreases keys.len(),
{
    if keys.len() == 0 || keys[0].material == m {
        0
    } else {
        1 + first_with_material(keys.drop_first(), m)
    }
}

proof fn first_with_material_is(
    keys: Seq<cert::CertKeyView>,
    m: openpgp::PublicKeyView,
    i: int,
)
    requires
        0 <= i <= keys.len(),
        forall|k: int| 0 <= k < i ==> (#[trigger] keys[k]).material != m,
        i < keys.len() ==> keys[i].material == m,
    ensures
        first_with_material(keys, m) == i,
    decreases keys.len(),
{
    if keys.len() > 0 && i > 0 {
        assert(keys[0].material != m);
        assert forall|k: int| 0 <= k < i - 1 implies (#[trigger] keys.drop_first()[k]).material
            != m by {
            assert(keys.drop_first()[k] == keys[k + 1]);
        }
        first_with_material_is(keys.drop_first(), m, i - 1);
    }
}

/// The key of a certificate that has the material of a key on a token: the same RSA
/// modulus and exponent, or the same point on the same curve.
pub open spec fn published_key(c: Cert, m: openpgp::PublicKeyView) -> Option<cert::CertKeyView> {
    let i = first_with_material(all_keys(c), m);
    if m !is Other && i < all_keys(c).len() {
        Some(all_keys(c)[i])
    } else {
        None
    }
}

/// The key of `c` that has the material `m`.
pub fn find_published_key<'a>(c: &'a Cert, m: &PublicKey) -> (r: Option<&'a CertKey>)
    ensures
        match published_key(*c, m@) {
            Some(k) => r matches Some(x) && x@ == k,
            None => r is None,
        },
{
    let ghost keys = all_keys(*c);
    if c.primary.material.same_material(m) {
        proof {
            first_with_material_is(keys, m@, 0);
        }
        return Some(&c.primary);
    }
    let mut i: usize = 0;
    while i < c.subkeys.len()
        invariant
            i <= c.subkeys.len(),
            keys == all_keys(*c),
            m@ !is Other ==> forall|k: int| 0 <= k <= i ==> (#[trigger] keys[k]).material != m@,
        decreases c.subkeys.len() - i,
    {
        assert(keys[i + 1] == c.subkeys@[i as int]@);
        if c.subkeys[i].material.same_material(m) {
            proof {
                first_with_material_is(keys, m@, i + 1);
            }
            return Some(&c.subkeys[i]);
        }
        i += 1;
    }
    proof {
        if m@ !is Other {
            first_with_material_is(keys, m@, keys.len() as int);
        }
    }
    None
}

// ---------------------------------------------------------------------------
// sign
// ---------------------------------------------------------------------------

/// What a signature looks like.
#[derive(Debug, Clone, Copy, PartialEq, Eq, Structural)]
pub enum SignatureForm {
    /// A detached signature in armor.
    Armored,
    /// A detached signature without armor.
    Binary,
    /// The text and the signature over it in one document.
    Cleartext,
}

/// Where a signature goes.
#[derive(Debug)]
pub enum SignOutput {
    Stdout,
    File(Vec<u8>),
}

/// The mathematical content of a [`SignOutput`].
pub enum SignOutputView {
    Stdout,
    File(Seq<u8>),
}

impl View for SignOutput {
    type V = SignOutputView;

    open spec fn view(&self) -> SignOutputView {
        match self {
            SignOutput::Stdout => SignOutputView::Stdout,
            SignOutput::File(p) => SignOutputView::File(p@),
        }
    }
}

/// The options of `sign`.
#[derive(Debug)]
pub struct SignArgs {
    pub access: AccessArgs,
    pub file: Vec<u8>,
    pub output: Option<Vec<u8>>,
    pub form: SignatureForm,
    pub force: bool,
    pub creation_time: Option<String>,
    /// Whether a certificate is given.
    pub input_cert: bool,
    /// Whether the certificate is to be left unchecked.
    pub skip_check: bool,
    pub require_key_algo: Option<KeyAlgo>,
}

/// A signature that is to be made.
#[derive(Debug)]
pub struct SignPlan {
    pub access: Access,
    /// The creation time that is stated; without one it is that of the certificate.
    pub creation_time: Option<UnixTime>,
    pub target: SignOutput,
    pub form: SignatureForm,
    pub force: bool,
    pub input_cert: bool,
    pub skip_check: bool,
    pub require_key_algo: Option<KeyAlgo>,
}

/// What is said where a cleartext document has no place to go.
pub open spec fn cleartext_needs_output() -> error::ErrorView {
    error::ErrorView::Other("--output is required with --cleartext"@)
}

/// Where the signature goes: to the given path, of which `-` is standard output, and
/// otherwise next to the file.  A cleartext document has no default, for next to the
/// file it would be taken for a detached signature.
pub open spec fn sign_target(
    output: Option<Seq<u8>>,
    file: Seq<u8>,
    form: SignatureForm,
) -> Result<SignOutputView, error::ErrorView> {
    match output {
        Some(p) => if output::is_stdout(p) {
            Ok(SignOutputView::Stdout)
        } else {
            Ok(SignOutputView::File(p))
        },
        None => if form == SignatureForm::Cleartext {
            Err(cleartext_needs_output())
        } else {
            Ok(SignOutputView::File(output::signature_path(file)))
        },
    }
}

fn choose_target(output: Option<Vec<u8>>, file: &Vec<u8>, form: SignatureForm) -> (r: Result<
    SignOutput,
    Error,
>)
    ensures
        match sign_target(
            match output {
                Some(p) => Some(p@),
                None => None,
            },
            file@,
            form,
        ) {
            Ok(t) => r matches Ok(x) && x@ == t,
            Err(e) => error::fails_with(r, e),
        },
{
    match output {
        Some(p) => {
            if output::names_stdout(&p) {
                Ok(SignOutput::Stdout)
            } else {
                Ok(SignOutput::File(p))
            }
        },
        None => match form {
            SignatureForm::Cleartext => Err(
                Error::Other("--output is required with --cleartext".to_owned()),
            ),
            _ => Ok(SignOutput::File(output::default_signature_path(file))),
        },
    }
}

/// The option that states a creation time.
pub open spec fn creation_time_flag() -> Seq<char> {
    "--creation-time"@
}

/// The creation time that options state.  Only with a certificate it may be left out.
pub open spec fn stated_time(s: Option<String>, optional: bool) -> Result<
    Option<UnixTime>,
    error::ErrorView,
> {
    match s {
        Some(ts) => match time::time_of(ts@) {
            Ok(t) => Ok(Some(t)),
            Err(e) => Err(e),
        },
        None => if optional {
            Ok(None)
        } else {
            Err(time::missing_creation_time(creation_time_flag()))
        },
    }
}

/// Whether the machine's clock can express a stated time.
pub open spec fn stated_time_known(s: Option<String>) -> bool {
    s matches Some(ts) ==> time::time_known(ts@)
}

/// Why a signature cannot be made, as far as the options tell.
pub open spec fn sign_fault(args: SignArgs) -> Option<error::ErrorView> {
    match access::primary_access(args.access) {
        Err(e) => Some(e),
        Ok(_) => match stated_time(args.creation_time, args.input_cert) {
            Err(e) => Some(e),
            Ok(_) => match sign_target(access::path_view(args.output), args.file@, args.form) {
                Err(e) => Some(e),
                Ok(_) => None,
            },
        },
    }
}

/// Plans a signature.
pub fn cmd_sign(args: SignArgs) -> (r: Result<SignPlan, Error>)
    ensures
        !stated_time_known(args.creation_time) ==> r is Err,
        stated_time_known(args.creation_time) ==> match sign_fault(args) {
            Some(e) => error::fails_with(r, e),
            None => r matches Ok(plan) && {
                &&& plan.access@ == access::primary_access(args.access)->Ok_0
                &&& plan.creation_time == stated_time(args.creation_time, args.input_cert)->Ok_0
                &&& plan.target@ == sign_target(access::path_view(args.output), args.file@, args.form)->Ok_0
                &&& plan.form == args.form
                &&& plan.force == args.force
                &&& plan.input_cert == args.input_cert
                &&& plan.skip_check == args.skip_check
                &&& plan.require_key_algo == args.require_key_algo
            },
        },
        r matches Ok(plan) ==> (plan.creation_time matches Some(t) ==> time::is_ordinary(t)) && (
        plan.creation_time is None ==> args.input_cert),
        r matches Ok(plan) ==> is_sign_plan(plan, args),
{
    let access = match access::read_access(args.access) {
        Ok(a) => a,
        Err(e) => {
            return Err(e);
        },
    };
    let creation_time = match &args.creation_time {
        Some(ts) => match time::parse_creation_time(Some(ts.as_str())) {
            Ok(t) => Some(t),
            Err(e) => {
                return Err(e);
            },
        },
        None => {
            if !args.input_cert {
                return Err(time::without_creation_time("--creation-time"));
            }
            None
        },
    };
    let target = match choose_target(args.output, &args.file, args.form) {
        Ok(t) => t,
        Err(e) => {
            return Err(e);
        },
    };
    Ok(
        SignPlan {
            access,
            creation_time,
            target,
            form: args.form,
            force: args.force,
            input_cert: args.input_cert,
            skip_check: args.skip_check,
            require_key_algo: args.require_key_algo,
        },
    )
}

/// What is left of a plan while the key is being acquired.
#[derive(Debug)]
pub struct SignRest {
    pub creation_time: Option<UnixTime>,
    pub target: SignOutput,
    pub form: SignatureForm,
    pub force: bool,
    pub skip_check: bool,
    pub require_key_algo: Option<KeyAlgo>,
}

/// The path that has to be looked at before the token is asked for anything, if there
/// is one.
pub open spec fn looked_at(target: SignOutputView, force: bool) -> Option<Seq<u8>> {
    match target {
        SignOutputView::Stdout => None,
        SignOutputView::File(p) => if output::needs_preflight(Some(p), force) {
            Some(p)
        } else {
            None
        },
    }
}

impl SignPlan {
    /// The path that has to be looked at first, if there is one.
    pub fn look_at(&self) -> (r: Option<&Vec<u8>>)
        ensures
            match looked_at(self.target@, self.force) {
                Some(p) => r matches Some(x) && x@ == p,
                None => r is None,
            },
    {
        match &self.target {
            SignOutput::Stdout => None,
            SignOutput::File(p) => {
                if output::preflight_needed(Some(p), self.force) {
                    Some(p)
                } else {
                    None
                }
            },
        }
    }

    /// Sets out for the key, unless a file would be overwritten; `path` is the path of
    /// the output in messages, and `found` what was found at it.
    pub fn set_out(self, path: &str, found: Option<Result<bool, String>>) -> (r: Result<
        (Progress, SignRest),
        Error,
    >)
        requires
            looked_at(self.target@, self.force) is Some <==> found is Some,
        ensures
            match access::preflight_fault(path@, found) {
                Some(e) => error::fails_with(r, e),
                None => r matches Ok((p, rest)) && {
                    &&& access::sets_out(p, self.access@)
                    &&& rest.creation_time == self.creation_time
                    &&& rest.target == self.target
                    &&& rest.form == self.form
                    &&& rest.force == self.force
                    &&& rest.skip_check == self.skip_check
                    &&& rest.require_key_algo == self.require_key_algo
                },
            },
            r matches Ok((p, rest)) ==> is_left_of(rest, self) && access::sets_out(p, self.access@),
    {
        match access::pass_preflight(path, found) {
            Ok(()) => {},
            Err(e) => {
                return Err(e);
            },
        }
        Ok(
            (
                self.access.acquire(),
                SignRest {
                    creation_time: self.creation_time,
                    target: self.target,
                    form: self.form,
                    force: self.force,
                    skip_check: self.skip_check,
                    require_key_algo: self.require_key_algo,
                },
            ),
        )
    }
}

/// A signature that the token can be asked for.
#[derive(Debug)]
pub struct SignJob {
    pub signer: Pkcs11Signer,
    pub hash: HashAlgorithm,
    pub form: SignatureForm,
    pub target: SignOutput,
    pub force: bool,
    /// What the user is told before.
    pub warning: Option<String>,
    /// Whether the certificate has to be checked before.
    pub check: bool,
}

/// What is said where the certificate has no key with the material of the one on the
/// token.
pub open spec fn no_published_key() -> error::ErrorView {
    error::ErrorView::Other(
        "no key in --input-cert matches the public material of the selected HSM key"@,
    )
}

/// The creation time that the key is stamped with: the stated one, or else that of the
/// key in the certificate that has the same material.
pub open spec fn stamp_time(
    stated: Option<UnixTime>,
    c: Option<&Cert>,
    m: openpgp::PublicKeyView,
) -> Result<UnixTime, error::ErrorView> {
    match stated {
        Some(t) => Ok(t),
        None => match c {
            None => Err(time::missing_creation_time(creation_time_flag())),
            Some(c) => match published_key(*c, m) {
                Some(k) => Ok(UnixTime { secs: k.creation_time as u64, nanos: 0 }),
                None => Err(no_published_key()),
            },
        },
    }
}

/// What the user is told where the stated time is not that of the certificate.
pub open spec fn time_warning(
    stated: Option<UnixTime>,
    c: Option<&Cert>,
    m: openpgp::PublicKeyView,
) -> Option<Seq<char>> {
    match (stated, c) {
        (Some(t), Some(c)) => match published_key(*c, m) {
            Some(k) => if k.creation_time != t.secs {
                Some(
                    "warning: --creation-time is "@ + text::decimal_text(t.secs as nat)
                        + " s after the epoch, but the key in --input-cert was created "@
                        + text::decimal_text(k.creation_time as nat) + " s after the epoch"@,
                )
            } else {
                None
            },
            None => None,
        },
        _ => None,
    }
}

/// Why the token is not asked for a signature, if it is not.
pub open spec fn job_fault(rest: SignRest, key: openpgp::KeyView, c: Option<&Cert>) -> Option<
    error::ErrorView,
> {
    if rest.require_key_algo matches Some(a) && !is_of_algo(key.mpis, a) {
        Some(wrong_algo(rest.require_key_algo->0))
    } else {
        match stamp_time(rest.creation_time, c, key.mpis) {
            Err(e) => Some(e),
            Ok(t) => if t.secs > u32::MAX || !openpgp::clock_covers(t.secs as int) {
                Some(openpgp::unrepresentable_time(t))
            } else {
                None
            },
        }
    }
}

impl SignRest {
    fn warn(&self, c: Option<&Cert>, key: &Key) -> (r: Option<String>)
        ensures
            match time_warning(self.creation_time, c, key@.mpis) {
                Some(t) => r matches Some(s) && s@ == t,
                None => r is None,
            },
    {
        match (self.creation_time, c) {
            (Some(t), Some(c)) => match find_published_key(c, &key.mpis) {
                Some(k) => {
                    if k.creation_time as u64 != t.secs {
                        let mut warning = text::join3(
                            "warning: --creation-time is ",
                            text::decimal(t.secs).as_str(),
                            " s after the epoch, but the key in --input-cert was created ",
                        );
                        warning.append(text::decimal(k.creation_time as u64).as_str());
                        warning.append(" s after the epoch");
                        Some(warning)
                    } else {
                        None
                    }
                },
                None => None,
            },
            _ => None,
        }
    }

    fn choose_time(&self, c: Option<&Cert>, key: &Key) -> (r: Result<UnixTime, Error>)
        ensures
            match stamp_time(self.creation_time, c, key@.mpis) {
                Ok(t) => r matches Ok(u) && u == t,
                Err(e) => error::fails_with(r, e),
            },
    {
        match self.creation_time {
            Some(t) => Ok(t),
            None => match c {
                None => Err(time::without_creation_time("--creation-time")),
                Some(c) => match find_published_key(c, &key.mpis) {
                    Some(k) => Ok(UnixTime { secs: k.creation_time as u64, nanos: 0 }),
                    None => Err(
                        Error::Other(
                            "no key in --input-cert matches the public material of the selected HSM key".to_owned(),
                        ),
                    ),
                },
            },
        }
    }

    /// Prepares the signature by the key that was acquired; `c` is the certificate, if
    /// one is given.
    pub fn prepare(self, signer: Pkcs11Signer, c: Option<&Cert>) -> (r: Result<SignJob, Error>)
        requires
            openpgp::usable(signer.public@),
        ensures
            match job_fault(self, signer.public@, c) {
                Some(e) => error::fails_with(r, e),
                None => r matches Ok(job) && {
                    let t = stamp_time(self.creation_time, c, signer.public@.mpis)->Ok_0;
                    &&& job.signer.priv_handle == signer.priv_handle
                    &&& job.signer.key_type == signer.key_type
                    &&& job.signer.public@ == assemble::stamped(signer.public@, t)
                    &&& openpgp::usable(job.signer.public@)
                    &&& openpgp::clock_covers(job.signer.public.creation_time as int)
                    &&& job.hash == cert::matching_hash(signer.public@)
                    &&& job.form == self.form
                    &&& job.target == self.target
                    &&& job.force == self.force
                    &&& match time_warning(self.creation_time, c, signer.public@.mpis) {
                        Some(w) => job.warning matches Some(x) && x@ == w,
                        None => job.warning is None,
                    }
                    &&& job.check == (c is Some && !self.skip_check)
                },
            },
            r matches Ok(job) ==> is_job(job, self, signer, c),
    {
        match check_key_algo(&signer.public.mpis, self.require_key_algo) {
            Ok(()) => {},
            Err(e) => {
                return Err(e);
            },
        }
        let t = match self.choose_time(c, &signer.public) {
            Ok(t) => t,
            Err(e) => {
                return Err(e);
            },
        };
        if !openpgp::clock_reaches(t.secs) {
            return Err(access::unrepresentable(t));
        }
        let warning = self.warn(c, &signer.public);
        let mut signer = signer;
        match signer.set_creation_time(t) {
            Ok(()) => {},
            Err(e) => {
                return Err(e);
            },
        }
        let hash = cert::preferred_hash_for(&signer.public);
        Ok(
            SignJob {
                signer,
                hash,
                form: self.form,
                target: self.target,
                force: self.force,
                warning,
                check: c.is_some() && !self.skip_check,
            },
        )
    }
}

/// What is said where the key is no current signer of the certificate.
pub open spec fn signer_refused(cause: Seq<char>) -> error::ErrorView {
    error::ErrorView::Context {
        message: "refusing to sign: the key is not a current valid signer in --input-cert (pass --no-verify-signing-key to sign anyway)"@,
        cause,
    }
}

/// Whether the certificate lets the key with the fingerprint `f` sign; `signers` are the
/// keys that it lets sign at the time `now`.
pub fn judge_signer(
    f: &Fingerprint,
    c: &Cert,
    name: &str,
    signers: &Vec<Fingerprint>,
    now: UnixTime,
) -> (r: Result<(), Error>)
    requires
        time::is_ordinary(now),
    ensures
        match verify::signer_verdict(f@, *c, name@, cert::fingerprint_views(signers@), now) {
            Ok(_) => r is Ok,
            Err(cause) => error::fails_with(r, signer_refused(cause)),
        },
{
    match verify::judge_signing_key(f, c, name, signers, now) {
        Ok(_) => Ok(()),
        Err(Error::Other(cause)) => Err(
            Error::Context {
                message: "refusing to sign: the key is not a current valid signer in --input-cert (pass --no-verify-signing-key to sign anyway)".to_owned(),
                cause,
            },
        ),
        Err(e) => Err(e),
    }
}

/// A signature whose key may be used: the certificate lets it sign, or no check was asked
/// for.  There is no other way to one than [`SignJob::check_signer`].
#[derive(Debug)]
pub struct CheckedJob {
    job: SignJob,
}

impl CheckedJob {
    /// The signature that may be made.
    pub closed spec fn job(self) -> SignJob {
        self.job
    }

    /// The signature that may be made.
    pub fn into_job(self) -> (job: SignJob)
        ensures
            job == self.job(),
    {
        self.job
    }
}

/// What becomes of a signature by the key with the fingerprint `f`, by what is reported of
/// the keys of the certificate at the time `now`: a key that is not in the certificate is
/// refused, and so is one that may not sign.  A certificate that cannot be read is
/// reported.
pub open spec fn is_checked(
    r: Result<CheckedJob, Error>,
    f: Seq<u8>,
    c: Cert,
    name: Seq<char>,
    now: UnixTime,
) -> bool {
    &&& r is Ok ==> verify::is_bound(c, f) && cert::is_key_of(c.data@, f)
    &&& if !verify::is_bound(c, f) {
        error::fails_with(r, signer_refused(verify::not_bound(f, name)))
    } else {
        match cert::reading_fault(c.data@) {
            Some(e) => error::fails_with(r, e),
            None => exists|signers: Seq<Seq<u8>>|
                cert::are_signers(signers, c.data@, now) && match #[trigger] verify::signer_verdict(
                    f,
                    c,
                    name,
                    signers,
                    now,
                ) {
                    Ok(_) => r is Ok,
                    Err(cause) => error::fails_with(r, signer_refused(cause)),
                },
        }
    }
}

impl SignJob {
    /// Whether the creation time of the signature is marked critical, so that a verifier
    /// that cannot read it has to refuse the signature.  In a binary signature it is not:
    /// rpm 4.16 reads no critical creation time, and would show the epoch.
    pub fn critical_creation_time(&self) -> (r: bool)
        ensures
            r == (self.form != SignatureForm::Binary),
    {
        match self.form {
            SignatureForm::Binary => false,
            _ => true,
        }
    }

    /// Lets the signature be made, unless the certificate does not let the key sign at the
    /// time `now`.  The certificate, which is called `name`, is asked only for a job with a
    /// check.
    pub fn check_signer(self, c: Option<&Cert>, name: &str, now: UnixTime) -> (r: Result<
        CheckedJob,
        Error,
    >)
        requires
            self.check ==> c is Some,
            openpgp::usable(self.signer.public@),
            openpgp::clock_covers(self.signer.public.creation_time as int),
            time::is_ordinary(now),
            now.nanos < 1_000_000_000,
        ensures
            r matches Ok(checked) ==> checked.job() == self,
            !self.check ==> r is Ok,
            self.check ==> is_checked(
                r,
                openpgp::v4_fingerprint(
                    self.signer.public@.creation_time,
                    self.signer.public@.mpis,
                ),
                *c->0,
                name@,
                now,
            ),
    {
        if let (true, Some(c)) = (self.check, c) {
            let f = self.signer.public.fingerprint();
            match verify::relevant_signers(&f, c, now) {
                Ok(signers) => {
                    let ghost views = cert::fingerprint_views(signers@);
                    assert(verify::is_bound(*c, f@) && views.contains(f@) ==> cert::is_key_of(
                        c.data@,
                        f@,
                    ));
                    match judge_signer(&f, c, name, &signers, now) {
                        Ok(()) => {},
                        Err(e) => {
                            return Err(e);
                        },
                    }
                },
                Err(e) => {
                    return Err(e);
                },
            }
        }
        Ok(CheckedJob { job: self })
    }
}

// ---------------------------------------------------------------------------
// Laws
// ---------------------------------------------------------------------------

proof fn first_with_material_bounds(keys: Seq<cert::CertKeyView>, m: openpgp::PublicKeyView)
    ensures
        0 <= first_with_material(keys, m) <= keys.len(),
        first_with_material(keys, m) < keys.len() ==> keys[first_with_material(keys, m)].material
            == m,
    decreases keys.len(),
{
    if keys.len() > 0 && keys[0].material != m {
        first_with_material_bounds(keys.drop_first(), m);
    }
}

/// A key that is stamped with the time of the certificate has the fingerprint of the
/// published key: the issuer of the signature is in the certificate, by construction.
pub proof fn published_time_gives_published_fingerprint(c: Cert, m: openpgp::PublicKeyView)
    requires
        published_key(c, m) is Some,
        cert::is_v4(published_key(c, m)->0.version, published_key(c, m)->0.algo, m),
        forall|i: int|
            0 <= i < all_keys(c).len() ==> cert::is_genuine(#[trigger] all_keys(c)[i]),
    ensures
        stamp_time(None, Some(&c), m) matches Ok(t) && {
            &&& openpgp::v4_fingerprint(t.secs as u32, m) == published_key(c, m)->0.fingerprint
            &&& verify::is_bound(c, openpgp::v4_fingerprint(t.secs as u32, m))
        },
{
    let keys = all_keys(c);
    let i = first_with_material(keys, m);
    first_with_material_bounds(keys, m);
    assert(cert::is_genuine(keys[i]));
    if i > 0 {
        assert(keys[i] == c.subkeys@[i - 1]@);
    }
}

/// A key is of one algorithm only: the match is exact, so that a larger key does not do
/// for a smaller one.
pub proof fn key_algorithms_exclude_each_other(
    m: openpgp::PublicKeyView,
    a: KeyAlgo,
    b: KeyAlgo,
)
    requires
        is_of_algo(m, a),
        is_of_algo(m, b),
    ensures
        a == b,
{
}

/// An explicit creation time wins over that of the certificate.
pub proof fn stated_time_wins(t: UnixTime, c: Option<&Cert>, m: openpgp::PublicKeyView)
    ensures
        stamp_time(Some(t), c, m) == Ok::<UnixTime, error::ErrorView>(t),
{
}

/// A key is of an RSA algorithm exactly if its modulus has that many bits, neither more nor
/// fewer, and of an elliptic-curve algorithm exactly if it is on that curve.
pub proof fn key_algorithms_are_exact(m: openpgp::PublicKeyView)
    ensures
        is_of_algo(m, KeyAlgo::Rsa2048) <==> (m matches openpgp::PublicKeyView::RSA { n, .. }
            && crate::bytes::is_bit_length(crate::bytes::be_value(n), 2048)),
        is_of_algo(m, KeyAlgo::Rsa3072) <==> (m matches openpgp::PublicKeyView::RSA { n, .. }
            && crate::bytes::is_bit_length(crate::bytes::be_value(n), 3072)),
        is_of_algo(m, KeyAlgo::Rsa4096) <==> (m matches openpgp::PublicKeyView::RSA { n, .. }
            && crate::bytes::is_bit_length(crate::bytes::be_value(n), 4096)),
        is_of_algo(m, KeyAlgo::P256) <==> (m matches openpgp::PublicKeyView::ECDSA { curve, .. }
            && curve == openpgp::CurveView::NistP256),
        is_of_algo(m, KeyAlgo::P384) <==> (m matches openpgp::PublicKeyView::ECDSA { curve, .. }
            && curve == openpgp::CurveView::NistP384),
        is_of_algo(m, KeyAlgo::P521) <==> (m matches openpgp::PublicKeyView::ECDSA { curve, .. }
            && curve == openpgp::CurveView::NistP521),
{
    if let openpgp::PublicKeyView::RSA { e, n } = m {
        let v = crate::bytes::be_value(n);
        let bits = crate::bytes::bit_length(v);
        crate::bytes::bit_length_bounds(v);
        if crate::bytes::is_bit_length(v, 2048) {
            crate::bytes::bit_length_is_unique(v, bits, 2048);
        }
        if crate::bytes::is_bit_length(v, 3072) {
            crate::bytes::bit_length_is_unique(v, bits, 3072);
        }
        if crate::bytes::is_bit_length(v, 4096) {
            crate::bytes::bit_length_is_unique(v, bits, 4096);
        }
    }
}

proof fn first_with_material_is_first(keys: Seq<cert::CertKeyView>, m: openpgp::PublicKeyView)
    ensures
        forall|k: int|
            0 <= k < first_with_material(keys, m) && k < keys.len() ==> (#[trigger] keys[k]).material
                != m,
    decreases keys.len(),
{
    if keys.len() > 0 && keys[0].material != m {
        let rest = keys.drop_first();
        first_with_material_is_first(rest, m);
        assert forall|k: int| 0 <= k < first_with_material(keys, m) && k < keys.len() implies (
        #[trigger] keys[k]).material != m by {
            if k > 0 {
                assert(rest[k - 1] == keys[k]);
            }
        }
    }
}

/// The published key is one of the certificate with the material of the key on the token:
/// the primary key if it has it, and otherwise the first subkey that has.  There is none
/// exactly if no key of the certificate has that material, or if it is of no known kind.
pub proof fn published_keys_have_the_material(c: Cert, m: openpgp::PublicKeyView)
    ensures
        m is Other ==> published_key(c, m) is None,
        published_key(c, m) matches Some(k) ==> k.material == m && (k == c.primary@ || exists|i: int|
            0 <= i < c.subkeys@.len() && (#[trigger] c.subkeys@[i])@ == k),
        m !is Other && c.primary@.material == m ==> published_key(c, m) == Some(c.primary@),
        m !is Other && c.primary@.material != m ==> forall|i: int|
            0 <= i < c.subkeys@.len() && (#[trigger] c.subkeys@[i])@.material == m && (forall|k: int|
                0 <= k < i ==> (#[trigger] c.subkeys@[k])@.material != m) ==> published_key(c, m)
                == Some(c.subkeys@[i]@),
        published_key(c, m) is None <==> m is Other || c.primary@.material != m && forall|i: int|
            0 <= i < c.subkeys@.len() ==> (#[trigger] c.subkeys@[i])@.material != m,
{
    let keys = all_keys(c);
    let j = first_with_material(keys, m);
    first_with_material_bounds(keys, m);
    first_with_material_is_first(keys, m);
    assert(keys[0] == c.primary@);
    assert forall|i: int| 0 <= i < c.subkeys@.len() implies keys[i + 1] == (
    #[trigger] c.subkeys@[i])@ by {}
    if j < keys.len() && j > 0 {
        assert(keys[j] == c.subkeys@[j - 1]@);
    }
    if m !is Other && c.primary@.material != m {
        assert forall|i: int|
            0 <= i < c.subkeys@.len() && (#[trigger] c.subkeys@[i])@.material == m && (forall|k: int|
                0 <= k < i ==> (#[trigger] c.subkeys@[k])@.material != m) implies published_key(c, m)
            == Some(c.subkeys@[i]@) by {
            assert(keys[i + 1] == c.subkeys@[i]@);
            assert forall|k: int| 0 <= k < i + 1 implies (#[trigger] keys[k]).material != m by {
                if k > 0 {
                    assert(keys[k] == c.subkeys@[k - 1]@);
                }
            }
            first_with_material_is(keys, m, i + 1);
        }
    }
    if published_key(c, m) is None && m !is Other {
        assert forall|i: int| 0 <= i < c.subkeys@.len() implies (#[trigger] c.subkeys@[i])@.material
            != m by {
            assert(keys[i + 1].material != m);
        }
    }
}

/// A signature goes to the path that is given, or to the standard output where that is `-`;
/// without a path it goes next to the file, but for a cleartext document, which has to be
/// given a path.
pub proof fn signatures_go_where_they_are_sent(
    output: Option<Seq<u8>>,
    file: Seq<u8>,
    form: SignatureForm,
)
    ensures
        sign_target(output, file, form) is Err <==> output is None && form
            == SignatureForm::Cleartext,
        output matches Some(p) ==> sign_target(output, file, form) == Ok::<
            SignOutputView,
            error::ErrorView,
        >(
            if output::is_stdout(p) {
                SignOutputView::Stdout
            } else {
                SignOutputView::File(p)
            },
        ),
        output is None && form != SignatureForm::Cleartext ==> sign_target(output, file, form)
            == Ok::<SignOutputView, error::ErrorView>(
            SignOutputView::File(output::signature_path(file)),
        ),
{
}

/// A creation time may be left out only with a certificate, and a time that is stated is
/// the one that is used.
pub proof fn times_are_left_out_only_with_a_certificate(s: Option<String>, optional: bool)
    ensures
        s is None ==> (stated_time(s, optional) is Ok <==> optional),
        s is None && optional ==> stated_time(s, optional) == Ok::<
            Option<UnixTime>,
            error::ErrorView,
        >(None),
        s matches Some(ts) ==> {
            &&& stated_time(s, optional) is Ok <==> time::time_of(ts@) is Ok
            &&& stated_time(s, optional) matches Ok(t) ==> t matches Some(x) && time::time_of(ts@)
                == Ok::<UnixTime, error::ErrorView>(x)
        },
{
}

/// Without a stated time the key is stamped with that of the published key, to the second,
/// and not at all where there is none.
pub proof fn published_time_is_taken(c: Option<&Cert>, m: openpgp::PublicKeyView)
    ensures
        stamp_time(None, c, m) is Ok <==> (c matches Some(x) && published_key(*x, m) is Some),
        stamp_time(None, c, m) matches Ok(t) ==> t.nanos == 0 && t.secs == published_key(
            *c->0,
            m,
        )->0.creation_time,
{
}

/// The user is warned exactly if the stated time is not that of the published key.
pub proof fn other_times_are_warned_of(
    stated: Option<UnixTime>,
    c: Option<&Cert>,
    m: openpgp::PublicKeyView,
)
    ensures
        time_warning(stated, c, m) is Some <==> (stated matches Some(t) && (c matches Some(x) && (
        published_key(*x, m) matches Some(k) && k.creation_time != t.secs))),
        time_warning(stated, c, m) matches Some(w) ==> w == "warning: --creation-time is "@
            + text::decimal_text(stated->0.secs as nat)
            + " s after the epoch, but the key in --input-cert was created "@ + text::decimal_text(
            published_key(*c->0, m)->0.creation_time as nat,
        ) + " s after the epoch"@,
{
}

/// `job` is the signature by `signer` that is left to do; `c` is the certificate, if one is
/// given.
pub open spec fn is_job(job: SignJob, rest: SignRest, signer: Pkcs11Signer, c: Option<&Cert>) -> bool {
    &&& job_fault(rest, signer.public@, c) is None
    &&& job.signer.priv_handle == signer.priv_handle
    &&& job.signer.key_type == signer.key_type
    &&& stamp_time(rest.creation_time, c, signer.public@.mpis) matches Ok(t) && job.signer.public@
        == assemble::stamped(signer.public@, t)
    &&& job.hash == cert::matching_hash(signer.public@)
    &&& job.form == rest.form
    &&& job.target == rest.target
    &&& job.force == rest.force
    &&& job.warning is Some <==> time_warning(rest.creation_time, c, signer.public@.mpis) is Some
    &&& job.check == (c is Some && !rest.skip_check)
}

/// A signature is made by the key that was acquired, of the required algorithm where one is
/// required; the key has the stated creation time, or else that of the published key; and
/// the form, the target and the force are those that were asked for.  A given certificate
/// is checked unless that is to be skipped.
pub proof fn jobs_are_as_asked(
    job: SignJob,
    rest: SignRest,
    signer: Pkcs11Signer,
    c: Option<&Cert>,
)
    requires
        is_job(job, rest, signer, c),
    ensures
        job.signer.priv_handle == signer.priv_handle,
        job.signer.key_type == signer.key_type,
        job.signer.public@.mpis == signer.public@.mpis,
        job.signer.public@.pk_algo == signer.public@.pk_algo,
        rest.creation_time matches Some(t) ==> job.signer.public@.creation_time == t.secs,
        rest.creation_time is None ==> (c matches Some(x) && (published_key(
            *x,
            signer.public@.mpis,
        ) matches Some(k) && job.signer.public@.creation_time == k.creation_time)),
        rest.require_key_algo matches Some(a) ==> is_of_algo(signer.public@.mpis, a),
        job.hash == cert::matching_hash(job.signer.public@),
        job.form == rest.form,
        job.target@ == rest.target@,
        job.force == rest.force,
        job.check <==> c is Some && !rest.skip_check,
        job.warning is Some <==> (rest.creation_time matches Some(t) && (c matches Some(x) && (
        published_key(*x, signer.public@.mpis) matches Some(k) && k.creation_time != t.secs))),
{
}

/// A signature is prepared exactly if the key is of the required algorithm, where one is
/// required, there is a creation time for it, and that time fits into 32 bits and the
/// clock of the machine.
pub proof fn jobs_are_prepared_unless_refused(
    rest: SignRest,
    key: openpgp::KeyView,
    c: Option<&Cert>,
)
    ensures
        job_fault(rest, key, c) is None <==> {
            &&& rest.require_key_algo matches Some(a) ==> is_of_algo(key.mpis, a)
            &&& rest.creation_time matches Some(t) ==> t.secs < 0x1_0000_0000
                && openpgp::clock_covers(t.secs as int)
            &&& rest.creation_time is None ==> (c matches Some(x) && (published_key(
                *x,
                key.mpis,
            ) matches Some(k) && openpgp::clock_covers(k.creation_time as int)))
        },
{
}

/// `plan` is the signature that the options ask for.
pub open spec fn is_sign_plan(plan: SignPlan, args: SignArgs) -> bool {
    &&& sign_fault(args) is None
    &&& access::primary_access(args.access) == Ok::<access::AccessView, error::ErrorView>(
        plan.access@,
    )
    &&& stated_time(args.creation_time, args.input_cert) == Ok::<
        Option<UnixTime>,
        error::ErrorView,
    >(plan.creation_time)
    &&& sign_target(access::path_view(args.output), args.file@, args.form) == Ok::<
        SignOutputView,
        error::ErrorView,
    >(plan.target@)
    &&& plan.form == args.form
    &&& plan.force == args.force
    &&& plan.input_cert == args.input_cert
    &&& plan.skip_check == args.skip_check
    &&& plan.require_key_algo == args.require_key_algo
}

/// A plan has what the options say: the form, the force, the required algorithm, whether
/// there is a certificate and whether it is left unchecked; the stated time, without which
/// there must be a certificate; and the place of the output.
pub proof fn plans_are_as_asked(plan: SignPlan, args: SignArgs)
    requires
        is_sign_plan(plan, args),
    ensures
        plan.form == args.form,
        plan.force == args.force,
        plan.input_cert == args.input_cert,
        plan.skip_check == args.skip_check,
        plan.require_key_algo == args.require_key_algo,
        args.creation_time is None ==> plan.creation_time is None && args.input_cert,
        args.creation_time matches Some(ts) ==> (plan.creation_time matches Some(t)
            && time::time_of(ts@) == Ok::<UnixTime, error::ErrorView>(t)),
        args.output matches Some(p) ==> plan.target@ == (if output::is_stdout(p@) {
            SignOutputView::Stdout
        } else {
            SignOutputView::File(p@)
        }),
        args.output is None ==> plan.target@ == SignOutputView::File(
            output::signature_path(args.file@),
        ) && args.form != SignatureForm::Cleartext,
        access::primary_access(args.access) == Ok::<access::AccessView, error::ErrorView>(
            plan.access@,
        ),
{
}

/// `rest` is what is left of a plan.
pub open spec fn is_left_of(rest: SignRest, plan: SignPlan) -> bool {
    &&& rest.creation_time == plan.creation_time
    &&& rest.target == plan.target
    &&& rest.form == plan.form
    &&& rest.force == plan.force
    &&& rest.skip_check == plan.skip_check
    &&& rest.require_key_algo == plan.require_key_algo
}

/// From the command line on: what is signed has the form, the place and the force of the
/// options, the key is of the required algorithm and has the stated creation time, and it
/// is checked against a given certificate unless that is to be skipped.
pub proof fn options_reach_the_job(
    args: SignArgs,
    plan: SignPlan,
    rest: SignRest,
    signer: Pkcs11Signer,
    c: Option<&Cert>,
    job: SignJob,
)
    requires
        is_sign_plan(plan, args),
        is_left_of(rest, plan),
        is_job(job, rest, signer, c),
        c is Some <==> args.input_cert,
    ensures
        job.form == args.form,
        job.force == args.force,
        job.check <==> args.input_cert && !args.skip_check,
        args.require_key_algo matches Some(a) ==> is_of_algo(signer.public@.mpis, a),
        args.creation_time matches Some(ts) ==> (time::time_of(ts@) matches Ok(t)
            && job.signer.public@.creation_time == t.secs),
        args.creation_time is None ==> (published_key(*c->0, signer.public@.mpis) matches Some(k)
            && job.signer.public@.creation_time == k.creation_time),
        args.output matches Some(p) ==> job.target@ == (if output::is_stdout(p@) {
            SignOutputView::Stdout
        } else {
            SignOutputView::File(p@)
        }),
        args.output is None ==> job.target@ == SignOutputView::File(
            output::signature_path(args.file@),
        ),
        job.signer.priv_handle == signer.priv_handle,
{
    plans_are_as_asked(plan, args);
    jobs_are_as_asked(job, rest, signer, c);
}

/// A file at the place of the output is looked for exactly if the output is a file and
/// overwriting is not forced; then it is that very file.
pub proof fn files_are_looked_at(target: SignOutputView, force: bool)
    ensures
        looked_at(target, force) is Some <==> !force && (target matches SignOutputView::File(p)
            && !output::is_stdout(p)),
        looked_at(target, force) matches Some(p) ==> target == SignOutputView::File(p),
{
}

/// A signature with a check is made only by a key that is in the certificate and of which
/// it is reported, for that certificate and that time, that it is alive, not revoked and a
/// signing key.
pub proof fn checked_keys_may_sign(
    r: Result<CheckedJob, Error>,
    f: Seq<u8>,
    c: Cert,
    name: Seq<char>,
    now: UnixTime,
)
    requires
        is_checked(r, f, c, name, now),
        r is Ok,
    ensures
        c.primary@.fingerprint == f || exists|i: int|
            0 <= i < c.subkeys@.len() && (#[trigger] c.subkeys@[i])@.fingerprint == f,
        exists|s: Seq<cert::KeyStatusView>, i: int| #[trigger]
            cert::reported(c.data@, now.secs, now.nanos, s) && 0 <= i < s.len() && cert::may_sign(
                #[trigger] s[i],
            ) && s[i].fingerprint == f,
{
    let signers = choose|signers: Seq<Seq<u8>>|
        cert::are_signers(signers, c.data@, now) && match #[trigger] verify::signer_verdict(
            f,
            c,
            name,
            signers,
            now,
        ) {
            Ok(_) => r is Ok,
            Err(cause) => error::fails_with(r, signer_refused(cause)),
        };
    verify::signers_are_current(f, c, name, signers, now);
    verify::passed_keys_are_reported(signers, c.data@, now, f);
}

/// A key of a certificate that can be read is refused only if something is reported of the
/// certificate, for that time, by which no current signing key has its fingerprint.
pub proof fn refused_keys_may_not_sign(
    r: Result<CheckedJob, Error>,
    f: Seq<u8>,
    c: Cert,
    name: Seq<char>,
    now: UnixTime,
)
    requires
        is_checked(r, f, c, name, now),
        verify::is_bound(c, f),
        cert::reading_fault(c.data@) is None,
        r is Err,
    ensures
        exists|s: Seq<cert::KeyStatusView>| #[trigger]
            cert::reported(c.data@, now.secs, now.nanos, s) && forall|i: int|
                0 <= i < s.len() && (#[trigger] s[i]).fingerprint == f ==> !(s[i].alive
                    && s[i].signing && !s[i].revoked && !s[i].cert_revoked),
{
    let signers = choose|signers: Seq<Seq<u8>>|
        cert::are_signers(signers, c.data@, now) && match #[trigger] verify::signer_verdict(
            f,
            c,
            name,
            signers,
            now,
        ) {
            Ok(_) => r is Ok,
            Err(cause) => error::fails_with(r, signer_refused(cause)),
        };
    verify::signers_are_current(f, c, name, signers, now);
    verify::unlisted_keys_are_reported(signers, c.data@, now, f);
}

} // verus!
