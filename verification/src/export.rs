//! The command `cert-export`: a certificate around one or two keys on tokens.

use vstd::prelude::*;

use crate::access;
use crate::access::{Access, AccessArgs};
use crate::acquire::Progress;
use crate::assemble;
use crate::assemble::{CertPlan, CertSpec, KeySpec};
use crate::cert::Cert;
use crate::error;
use crate::error::Error;
use crate::openpgp;
use crate::openpgp::UnixTime;
use crate::output;
use crate::signer::Pkcs11Signer;
use crate::text;
use crate::time;
use crate::time::Period;

verus! {

// ---------------------------------------------------------------------------
// Tiers
// ---------------------------------------------------------------------------

/// The options for one of the keys: the primary key, or the subkey.
#[derive(Debug)]
pub struct TierArgs {
    pub access: AccessArgs,
    pub creation_time: Option<String>,
    pub validity_period: String,
    pub no_expiration: bool,
}

/// One of the keys: the way to it, its creation time, and how long it is valid.
#[derive(Debug)]
pub struct Tier {
    pub access: Access,
    pub creation_time: UnixTime,
    pub validity: Option<Period>,
}

/// Whether the period that the options state can be read.
pub open spec fn is_readable(a: TierArgs) -> bool {
    a.no_expiration || time::is_readable(a.validity_period@)
}

/// Whether the machine's clock can express the creation time that the options state.
pub open spec fn is_timely(a: TierArgs) -> bool {
    a.creation_time matches Some(ts) ==> time::time_known(ts@)
}

/// How long a key is valid that is created at `start`.
pub open spec fn tier_validity(a: TierArgs, start: u64) -> Result<
    Option<Period>,
    error::ErrorView,
> {
    if a.no_expiration {
        Ok(None)
    } else {
        match time::validity_from(a.validity_period@, start) {
            Ok(p) => Ok(Some(p)),
            Err(e) => Err(e),
        }
    }
}

/// What the options say of the creation time of a key, and of how long it is valid.
/// `flag` is the option for the creation time.
pub open spec fn tier_times(a: TierArgs, flag: Seq<char>) -> Result<
    (UnixTime, Option<Period>),
    error::ErrorView,
> {
    match a.creation_time {
        None => Err(time::missing_creation_time(flag)),
        Some(ts) => match time::time_of(ts@) {
            Err(e) => Err(e),
            Ok(t) => match tier_validity(a, t.secs) {
                Err(e) => Err(e),
                Ok(v) => Ok((t, v)),
            },
        },
    }
}

fn read_times(
    creation_time: &Option<String>,
    validity_period: &String,
    no_expiration: bool,
    flag: &str,
    Ghost(a): Ghost<TierArgs>,
) -> (r: Result<(UnixTime, Option<Period>), Error>)
    requires
        is_readable(a),
        *creation_time == a.creation_time,
        *validity_period == a.validity_period,
        no_expiration == a.no_expiration,
    ensures
        !is_timely(a) ==> r is Err,
        is_timely(a) ==> match tier_times(a, flag@) {
            Ok(times) => r matches Ok(x) && x == times,
            Err(e) => error::fails_with(r, e),
        },
        r matches Ok((t, v)) ==> time::is_ordinary(t),
{
    let stated = match creation_time {
        Some(ts) => time::require_creation_time(Some(ts.as_str()), flag),
        None => time::require_creation_time(None, flag),
    };
    let t = match stated {
        Ok(t) => t,
        Err(e) => {
            return Err(e);
        },
    };
    if no_expiration {
        return Ok((t, None));
    }
    match time::parse_validity_from(validity_period.as_str(), t) {
        Ok(p) => Ok((t, Some(p))),
        Err(e) => Err(e),
    }
}

/// The mathematical content of a [`Tier`].
pub struct TierView {
    pub access: access::AccessView,
    pub creation_time: UnixTime,
    pub validity: Option<Period>,
}

impl View for Tier {
    type V = TierView;

    open spec fn view(&self) -> TierView {
        TierView {
            access: self.access@,
            creation_time: self.creation_time,
            validity: self.validity,
        }
    }
}

/// The primary key that the options state.
pub open spec fn primary_tier(a: TierArgs) -> Result<TierView, error::ErrorView> {
    match access::primary_access(a.access) {
        Err(e) => Err(e),
        Ok(access) => match tier_times(a, "--creation-time"@) {
            Err(e) => Err(e),
            Ok((creation_time, validity)) => Ok(TierView { access, creation_time, validity }),
        },
    }
}

/// Reads the options for the primary key.
fn read_primary(a: TierArgs) -> (r: Result<Tier, Error>)
    requires
        is_readable(a),
    ensures
        !is_timely(a) ==> r is Err,
        is_timely(a) ==> match primary_tier(a) {
            Ok(view) => r matches Ok(tier) && tier@ == view,
            Err(e) => error::fails_with(r, e),
        },
        r matches Ok(tier) ==> time::is_ordinary(tier.creation_time),
{
    let ghost whole = a;
    let access = match access::read_access(a.access) {
        Ok(access) => access,
        Err(e) => {
            return Err(e);
        },
    };
    match read_times(
        &a.creation_time,
        &a.validity_period,
        a.no_expiration,
        "--creation-time",
        Ghost(whole),
    ) {
        Ok((creation_time, validity)) => Ok(Tier { access, creation_time, validity }),
        Err(e) => Err(e),
    }
}

/// The subkey that the options state, if they state one.
pub open spec fn subkey_tier(a: TierArgs) -> Result<Option<TierView>, error::ErrorView> {
    match access::access_of(a.access, "--subkey-id"@) {
        Err(e) => Err(e),
        Ok(None) => Ok(None),
        Ok(Some(access)) => match tier_times(a, "--subkey-creation-time"@) {
            Err(e) => Err(e),
            Ok((creation_time, validity)) => Ok(
                Some(TierView { access, creation_time, validity }),
            ),
        },
    }
}

/// Whether the options state no subkey.
pub open spec fn has_no_subkey(a: TierArgs) -> bool {
    access::access_of(a.access, "--subkey-id"@) == Ok::<
        Option<access::AccessView>,
        error::ErrorView,
    >(None)
}

/// Reads the options for the subkey.
fn read_subkey(a: TierArgs) -> (r: Result<Option<Tier>, Error>)
    requires
        is_readable(a),
    ensures
        !is_timely(a) && !has_no_subkey(a) ==> r is Err,
        is_timely(a) || has_no_subkey(a) ==> match subkey_tier(a) {
            Ok(Some(view)) => r matches Ok(Some(tier)) && tier@ == view,
            Ok(None) => r matches Ok(None),
            Err(e) => error::fails_with(r, e),
        },
        r matches Ok(Some(tier)) ==> time::is_ordinary(tier.creation_time),
{
    let ghost whole = a;
    let access = match access::read_subkey_access(a.access) {
        Ok(Some(access)) => access,
        Ok(None) => {
            return Ok(None);
        },
        Err(e) => {
            return Err(e);
        },
    };
    match read_times(
        &a.creation_time,
        &a.validity_period,
        a.no_expiration,
        "--subkey-creation-time",
        Ghost(whole),
    ) {
        Ok((creation_time, validity)) => Ok(Some(Tier { access, creation_time, validity })),
        Err(e) => Err(e),
    }
}

// ---------------------------------------------------------------------------
// The command
// ---------------------------------------------------------------------------

/// The options of `cert-export`.
#[derive(Debug)]
pub struct CertExportArgs {
    pub primary: TierArgs,
    pub subkey: TierArgs,
    pub user_ids: Vec<String>,
    pub output: Option<Vec<u8>>,
    pub force: bool,
}

/// What is left of the command while the primary key is being acquired.
#[derive(Debug)]
pub struct ExportPrimary {
    pub creation_time: UnixTime,
    pub validity: Option<Period>,
    pub subkey: TierArgs,
    pub user_ids: Vec<String>,
}

/// What is left of the command while the subkey, if there is one, is being acquired.
#[derive(Debug)]
pub struct ExportSubkey {
    pub primary: KeySpec,
    pub subkey: Option<(UnixTime, Option<Period>)>,
    pub user_ids: Vec<String>,
}

/// Sets out for the primary key, unless a file would be overwritten; `path` is the path
/// of the output in messages, and `found` what was found at it.
pub fn cmd_cert_export(
    args: CertExportArgs,
    path: &str,
    found: Option<Result<bool, String>>,
) -> (r: Result<(Progress, ExportPrimary), Error>)
    requires
        is_readable(args.primary),
        output::needs_preflight(access::path_view(args.output), args.force) <==> found is Some,
    ensures
        match access::preflight_fault(path@, found) {
            Some(e) => error::fails_with(r, e),
            None => if !is_timely(args.primary) {
                r is Err
            } else {
                match primary_tier(args.primary) {
                    Err(e) => error::fails_with(r, e),
                    Ok(tier) => r matches Ok((p, rest)) && {
                        &&& access::sets_out(p, tier.access)
                        &&& rest.creation_time == tier.creation_time
                        &&& rest.validity == tier.validity
                        &&& rest.subkey == args.subkey
                        &&& rest.user_ids == args.user_ids
                    },
                }
            },
        },
        r matches Ok((p, rest)) ==> time::is_ordinary(rest.creation_time),
        r matches Ok((p, rest)) ==> is_primary_rest(rest, args),
{
    match access::pass_preflight(path, found) {
        Ok(()) => {},
        Err(e) => {
            return Err(e);
        },
    }
    match read_primary(args.primary) {
        Ok(tier) => Ok(
            (
                tier.access.acquire(),
                ExportPrimary {
                    creation_time: tier.creation_time,
                    validity: tier.validity,
                    subkey: args.subkey,
                    user_ids: args.user_ids,
                },
            ),
        ),
        Err(e) => Err(e),
    }
}

impl ExportPrimary {
    /// Goes on with the subkey, once the primary key is there.
    pub fn with_primary(self, signer: Pkcs11Signer) -> (r: Result<
        (Option<Progress>, ExportSubkey),
        Error,
    >)
        requires
            is_readable(self.subkey),
        ensures
            !is_timely(self.subkey) && !has_no_subkey(self.subkey) ==> r is Err,
            is_timely(self.subkey) || has_no_subkey(self.subkey) ==> match subkey_tier(
                self.subkey,
            ) {
                Err(e) => error::fails_with(r, e),
                Ok(tier) => r matches Ok((p, rest)) && {
                    &&& rest.primary == (KeySpec {
                        signer,
                        creation_time: self.creation_time,
                        validity_period: self.validity,
                    })
                    &&& rest.user_ids == self.user_ids
                    &&& match tier {
                        Some(tier) => {
                            &&& p matches Some(q) && access::sets_out(q, tier.access)
                            &&& rest.subkey == Some((tier.creation_time, tier.validity))
                        },
                        None => p is None && rest.subkey is None,
                    }
                },
            },
            r matches Ok((p, rest)) ==> (rest.subkey matches Some((t, v)) ==> time::is_ordinary(t)),
            r matches Ok((p, rest)) ==> is_subkey_rest(rest, self, signer),
    {
        let primary = KeySpec {
            signer,
            creation_time: self.creation_time,
            validity_period: self.validity,
        };
        match read_subkey(self.subkey) {
            Err(e) => Err(e),
            Ok(None) => Ok((None, ExportSubkey { primary, subkey: None, user_ids: self.user_ids })),
            Ok(Some(tier)) => Ok(
                (
                    Some(tier.access.acquire()),
                    ExportSubkey {
                        primary,
                        subkey: Some((tier.creation_time, tier.validity)),
                        user_ids: self.user_ids,
                    },
                ),
            ),
        }
    }
}

/// The certificate that is made from the keys once they are there.
pub open spec fn export_spec(
    rest: ExportSubkey,
    subkey: Option<Pkcs11Signer>,
    merge_into: Option<Cert>,
) -> CertSpec {
    CertSpec {
        primary: rest.primary,
        subkey: match (subkey, rest.subkey) {
            (Some(signer), Some((creation_time, validity_period))) => Some(
                KeySpec { signer, creation_time, validity_period },
            ),
            _ => None,
        },
        user_ids: rest.user_ids,
        merge_into,
    }
}

/// What is said where a fresh certificate would have no user ID.
pub open spec fn no_user_id() -> error::ErrorView {
    error::ErrorView::Other("fresh cert requires at least one User ID"@)
}

impl ExportSubkey {
    /// Plans the certificate, once the subkey is there too; with `merge_into` the keys go
    /// into that certificate.
    pub fn with_subkey(self, subkey: Option<Pkcs11Signer>, merge_into: Option<Cert>) -> (r: Result<
        CertPlan,
        Error,
    >)
        requires
            subkey is Some <==> self.subkey is Some,
            assemble::has_fingerprint(self.primary),
            subkey matches Some(s) ==> openpgp::usable(s.public@),
            self.subkey matches Some((t, v)) ==> time::is_ordinary(t),
        ensures
            ({
                let spec = export_spec(self, subkey, merge_into);
                if merge_into is None && self.user_ids@.len() == 0 {
                    error::fails_with(r, no_user_id())
                } else {
                    match assemble::cert_fault(spec) {
                        Some(e) => error::fails_with(r, e),
                        None => r matches Ok(plan) && assemble::is_plan_of(plan, spec),
                    }
                }
            }),
    {
        if merge_into.is_none() && self.user_ids.len() == 0 {
            return Err(Error::Other("fresh cert requires at least one User ID".to_owned()));
        }
        let subkey_spec = match (subkey, self.subkey) {
            (Some(signer), Some((creation_time, validity_period))) => Some(
                KeySpec { signer, creation_time, validity_period },
            ),
            _ => None,
        };
        assemble::build_cert(
            CertSpec {
                primary: self.primary,
                subkey: subkey_spec,
                user_ids: self.user_ids,
                merge_into,
            },
        )
    }
}

// ---------------------------------------------------------------------------
// Laws
// ---------------------------------------------------------------------------

/// A key has the creation time that is stated, and is valid for the stated period from
/// that time on; without expiration it is valid for ever.
pub proof fn times_are_as_stated(a: TierArgs, flag: Seq<char>)
    ensures
        tier_times(a, flag) matches Ok((t, v)) ==> {
            &&& a.creation_time matches Some(ts) && time::time_of(ts@) == Ok::<
                UnixTime,
                error::ErrorView,
            >(t)
            &&& a.no_expiration <==> v is None
            &&& v matches Some(p) ==> time::validity_from(a.validity_period@, t.secs) == Ok::<
                Period,
                error::ErrorView,
            >(p)
        },
        tier_times(a, flag) is Ok <==> (a.creation_time matches Some(ts) && (time::time_of(
            ts@,
        ) matches Ok(t) && (a.no_expiration || time::validity_from(a.validity_period@, t.secs)
            is Ok))),
{
}

/// The primary key and the subkey are those of the options, each with its own times.  A
/// subkey that is not selected is none, whatever the options say of its times.
pub proof fn tiers_are_the_options(a: TierArgs)
    ensures
        primary_tier(a) matches Ok(t) ==> {
            &&& access::primary_access(a.access) == Ok::<access::AccessView, error::ErrorView>(
                t.access,
            )
            &&& tier_times(a, "--creation-time"@) == Ok::<
                (UnixTime, Option<Period>),
                error::ErrorView,
            >((t.creation_time, t.validity))
        },
        primary_tier(a) is Ok <==> access::primary_access(a.access) is Ok && tier_times(
            a,
            "--creation-time"@,
        ) is Ok,
        subkey_tier(a) matches Ok(Some(t)) ==> {
            &&& access::access_of(a.access, "--subkey-id"@) == Ok::<
                Option<access::AccessView>,
                error::ErrorView,
            >(Some(t.access))
            &&& tier_times(a, "--subkey-creation-time"@) == Ok::<
                (UnixTime, Option<Period>),
                error::ErrorView,
            >((t.creation_time, t.validity))
        },
        subkey_tier(a) matches Ok(None) <==> access::access_of(a.access, "--subkey-id"@) matches Ok(
            None,
        ),
        subkey_tier(a) matches Ok(Some(_)) <==> (access::access_of(a.access, "--subkey-id"@) matches Ok(
            Some(_),
        )) && tier_times(a, "--subkey-creation-time"@) is Ok,
{
}

/// `rest` is what is left of the options `args` while the primary key is being acquired.
pub open spec fn is_primary_rest(rest: ExportPrimary, args: CertExportArgs) -> bool {
    &&& primary_tier(args.primary) matches Ok(tier) && rest.creation_time == tier.creation_time
        && rest.validity == tier.validity
    &&& rest.subkey == args.subkey
    &&& rest.user_ids == args.user_ids
}

/// `rest` is what is left of `from` once the primary key is there.
pub open spec fn is_subkey_rest(rest: ExportSubkey, from: ExportPrimary, signer: Pkcs11Signer) -> bool {
    &&& rest.primary.signer == signer
    &&& rest.primary.creation_time == from.creation_time
    &&& rest.primary.validity_period == from.validity
    &&& rest.user_ids == from.user_ids
    &&& match subkey_tier(from.subkey) {
        Ok(Some(tier)) => rest.subkey == Some((tier.creation_time, tier.validity)),
        _ => rest.subkey is None,
    }
}

/// The certificate is made from the keys that were acquired, each with its own times, and
/// from the user IDs; it goes into the given one, if one is given.
pub proof fn specs_keep_the_parts(
    rest: ExportSubkey,
    subkey: Option<Pkcs11Signer>,
    merge_into: Option<Cert>,
)
    requires
        subkey is Some <==> rest.subkey is Some,
    ensures
        export_spec(rest, subkey, merge_into).primary.signer == rest.primary.signer,
        export_spec(rest, subkey, merge_into).primary.creation_time == rest.primary.creation_time,
        export_spec(rest, subkey, merge_into).primary.validity_period
            == rest.primary.validity_period,
        export_spec(rest, subkey, merge_into).user_ids@ == rest.user_ids@,
        export_spec(rest, subkey, merge_into).merge_into == merge_into,
        subkey is None ==> export_spec(rest, subkey, merge_into).subkey is None,
        subkey matches Some(s) ==> (export_spec(rest, subkey, merge_into).subkey matches Some(k)
            && k.signer == s && k.creation_time == (rest.subkey->0).0 && k.validity_period == (
        rest.subkey->0).1),
{
}

/// From the command line on: the certificate binds the user IDs of the options, all of
/// them and in their order; its primary key is the one that was acquired for the primary
/// options, created at the time that these state, and its subkey, if the options select
/// one, is the one that was acquired for that, created at its own time.
pub proof fn options_reach_the_plan(
    args: CertExportArgs,
    first: ExportPrimary,
    primary: Pkcs11Signer,
    rest: ExportSubkey,
    subkey: Option<Pkcs11Signer>,
    merge_into: Option<Cert>,
    plan: CertPlan,
)
    requires
        is_primary_rest(first, args),
        is_subkey_rest(rest, first, primary),
        subkey is Some <==> rest.subkey is Some,
        assemble::cert_fault(export_spec(rest, subkey, merge_into)) is None,
        assemble::is_plan_of(plan, export_spec(rest, subkey, merge_into)),
    ensures
        assemble::bound_user_ids(assemble::step_views(plan.steps@)) == crate::cert::string_views(
            args.user_ids@,
        ),
        plan.merge_into == merge_into,
        plan.primary.priv_handle == primary.priv_handle,
        plan.primary.public@.mpis == primary.public@.mpis,
        args.primary.creation_time matches Some(ts) && (time::time_of(ts@) matches Ok(t)
            && plan.primary.public@.creation_time == t.secs),
        plan.subkey is Some <==> subkey is Some,
        plan.subkey matches Some(s) ==> {
            &&& s.priv_handle == subkey->0.priv_handle
            &&& s.public@.mpis == subkey->0.public@.mpis
            &&& args.subkey.creation_time matches Some(ts) && (time::time_of(ts@) matches Ok(t)
                && s.public@.creation_time == t.secs)
        },
        merge_into is None ==> (plan.steps@[0]@ matches assemble::StepView::DirectKey {
            validity,
            ..
        } && (validity is None <==> args.primary.no_expiration)),
        plan.subkey is Some ==> (plan.steps@[plan.steps@.len() - 1]@ matches assemble::StepView::Subkey {
            validity,
            ..
        } && (validity is None <==> args.subkey.no_expiration)),
{
    let spec = export_spec(rest, subkey, merge_into);
    assemble::every_user_id_is_bound(plan, spec);
    assemble::plans_keep_the_keys(plan, spec);
    assemble::steps_are_in_order(plan, spec);
    specs_keep_the_parts(rest, subkey, merge_into);
    tiers_are_the_options(args.primary);
    times_are_as_stated(args.primary, "--creation-time"@);
    tiers_are_the_options(args.subkey);
    times_are_as_stated(args.subkey, "--subkey-creation-time"@);
    assert(merge_into is None ==> plan.steps@[0]@ is DirectKey);
    assert(plan.subkey is Some ==> plan.steps@[plan.steps@.len() - 1]@ is Subkey);
}

} // verus!
