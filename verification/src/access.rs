//! Which key a command uses, and what has to be seen before a token is asked for
//! anything.

use vstd::prelude::*;

use crate::acquire;
use crate::acquire::{Acquire, Progress};
use crate::cli;
use crate::cli::{KeySelectionArgs, PinFile};
use crate::error;
use crate::error::Error;
use crate::openpgp;
use crate::openpgp::UnixTime;
use crate::output;
use crate::session;
use crate::session::{KeySelector, LoginMode};
use crate::text;

verus! {

// ---------------------------------------------------------------------------
// Access to a key
// ---------------------------------------------------------------------------

/// The options that say which key is used, and how to log in to its token: with the
/// passphrase of a file, or with that of the environment.
#[derive(Debug)]
pub struct AccessArgs {
    pub key: KeySelectionArgs,
    pub pin_file: Option<PinFile>,
    pub pin_environment: Option<String>,
}

/// Which key is used, and how to log in to its token.
#[derive(Debug)]
pub struct Access {
    pub selector: KeySelector,
    pub login: LoginMode,
}

/// The mathematical content of an [`Access`].
pub struct AccessView {
    pub selector: session::SelectorView,
    pub pin: Option<Seq<char>>,
}

impl View for Access {
    type V = AccessView;

    open spec fn view(&self) -> AccessView {
        AccessView { selector: self.selector@, pin: session::login_pin(self.login) }
    }
}

/// The access that options state, if they select a key; `flag` is the option for an
/// identifier.
pub open spec fn access_of(args: AccessArgs, flag: Seq<char>) -> Result<
    Option<AccessView>,
    error::ErrorView,
> {
    match cli::selection(args.key, flag) {
        Err(e) => Err(e),
        Ok(None) => Ok(None),
        Ok(Some(selector)) => match cli::login_of(args.pin_file, args.pin_environment) {
            Err(e) => Err(e),
            Ok(pin) => Ok(Some(AccessView { selector, pin })),
        },
    }
}

/// The access that options state; one of them must select a key.
pub open spec fn primary_access(args: AccessArgs) -> Result<AccessView, error::ErrorView> {
    match access_of(args, "--key-id"@) {
        Err(e) => Err(e),
        Ok(None) => Err(cli::no_selector()),
        Ok(Some(access)) => Ok(access),
    }
}

pub(crate) fn read_access(args: AccessArgs) -> (r: Result<Access, Error>)
    ensures
        match primary_access(args) {
            Ok(view) => r matches Ok(a) && a@ == view,
            Err(e) => error::fails_with(r, e),
        },
{
    let selector = match args.key.resolve() {
        Ok(s) => s,
        Err(e) => {
            return Err(e);
        },
    };
    match cli::login_mode(args.pin_file, args.pin_environment) {
        Ok(login) => Ok(Access { selector, login }),
        Err(e) => Err(e),
    }
}

pub(crate) fn read_subkey_access(args: AccessArgs) -> (r: Result<Option<Access>, Error>)
    ensures
        match access_of(args, "--subkey-id"@) {
            Ok(Some(view)) => r matches Ok(Some(a)) && a@ == view,
            Ok(None) => r matches Ok(None),
            Err(e) => error::fails_with(r, e),
        },
{
    let selector = match cli::resolve_subkey_selector(&args.key) {
        Ok(Some(s)) => s,
        Ok(None) => {
            return Ok(None);
        },
        Err(e) => {
            return Err(e);
        },
    };
    match cli::login_mode(args.pin_file, args.pin_environment) {
        Ok(login) => Ok(Some(Access { selector, login })),
        Err(e) => Err(e),
    }
}

impl Access {
    /// The way to the key.
    pub fn acquire(self) -> (p: Progress)
        ensures
            sets_out(p, self@),
    {
        Acquire::start(self.selector, self.login)
    }
}

// ---------------------------------------------------------------------------
// Before the token is asked
// ---------------------------------------------------------------------------

/// The mathematical content of an optional path.
pub open spec fn path_view(p: Option<Vec<u8>>) -> Option<Seq<u8>> {
    match p {
        Some(p) => Some(p@),
        None => None,
    }
}

/// Why a command goes no further, from what was found at the path of its output.
pub open spec fn preflight_fault(
    path: Seq<char>,
    found: Option<Result<bool, String>>,
) -> Option<error::ErrorView> {
    match found {
        None => None,
        Some(Ok(false)) => None,
        Some(Ok(true)) => Some(output::overwrite_refused(path)),
        Some(Err(e)) => Some(output::existence_unknown(path, e@)),
    }
}

pub(crate) fn pass_preflight(path: &str, found: Option<Result<bool, String>>) -> (r: Result<(), Error>)
    ensures
        match preflight_fault(path@, found) {
            Some(e) => error::fails_with(r, e),
            None => r is Ok,
        },
{
    match found {
        Some(f) => output::preflight_overwrite(path, f),
        None => Ok(()),
    }
}

/// The progress is the first question on the way to the key of `access`.
pub open spec fn sets_out(p: Progress, access: AccessView) -> bool {
    p matches Progress::Ask(a, q) && {
        &&& a.selector@ == access.selector
        &&& session::login_pin(a.login) == access.pin
        &&& a.phase == acquire::Phase::Slots
        &&& q == acquire::Question::Slots
    }
}

// ---------------------------------------------------------------------------
// Times
// ---------------------------------------------------------------------------

pub(crate) fn unrepresentable(t: UnixTime) -> (e: Error)
    ensures
        e@ == openpgp::unrepresentable_time(t),
{
    Error::Other(
        text::join3(
            "Invalid argument: time ",
            text::decimal(t.secs).as_str(),
            " s after the epoch is not representable in OpenPGP",
        ),
    )
}

// ---------------------------------------------------------------------------
// Laws
// ---------------------------------------------------------------------------

/// The access is that of the options: the key that they select, and the passphrase of the
/// file or of the environment.  Without a selected key there is none, whatever they say of
/// a passphrase, and the primary key has to be selected.
pub proof fn access_is_that_of_the_options(args: AccessArgs, flag: Seq<char>)
    ensures
        access_of(args, flag) matches Ok(Some(a)) ==> {
            &&& cli::selection(args.key, flag) == Ok::<
                Option<session::SelectorView>,
                error::ErrorView,
            >(Some(a.selector))
            &&& cli::login_of(args.pin_file, args.pin_environment) == Ok::<
                Option<Seq<char>>,
                error::ErrorView,
            >(a.pin)
        },
        access_of(args, flag) matches Ok(None) <==> cli::selection(args.key, flag) matches Ok(None),
        access_of(args, flag) matches Ok(Some(_)) <==> (cli::selection(args.key, flag) matches Ok(
            Some(_),
        )) && cli::login_of(args.pin_file, args.pin_environment) is Ok,
        primary_access(args) matches Ok(a) ==> access_of(args, "--key-id"@) == Ok::<
            Option<AccessView>,
            error::ErrorView,
        >(Some(a)),
        primary_access(args) is Ok <==> (access_of(args, "--key-id"@) matches Ok(Some(_))),
{
}

/// A command goes on exactly if no file was looked for, or none was found; one that exists
/// is refused, and so is one of which that is not known.
pub proof fn found_files_stop_the_command(path: Seq<char>, found: Option<Result<bool, String>>)
    ensures
        preflight_fault(path, found) is None <==> (found matches Some(f) ==> f matches Ok(exists_)
            && !exists_),
        found matches Some(Ok(true)) ==> preflight_fault(path, found) == Some(
            output::overwrite_refused(path),
        ),
        found matches Some(Err(e)) ==> preflight_fault(path, found) == Some(
            output::existence_unknown(path, e@),
        ),
{
}

/// The way to a key begins with the question for the slots, for the selector and with the
/// passphrase of the access.
pub proof fn ways_begin_with_the_slots(p: Progress, access: AccessView)
    requires
        sets_out(p, access),
    ensures
        p matches Progress::Ask(a, q) && q is Slots && a.phase is Slots && a.selector@
            == access.selector && (a.login matches LoginMode::Pin(pin) ==> access.pin == Some(pin@))
            && (a.login is NoLogin ==> access.pin is None),
{
}

} // verus!
