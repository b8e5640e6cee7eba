//! The ways in which the library's functions fail.

use vstd::prelude::*;

use crate::text;

verus! {

/// Why an operation did not succeed.
#[derive(Debug)]
pub enum Error {
    /// The PKCS#11 module returned an error.
    Pkcs11(String),
    /// The OpenPGP implementation returned an error.
    OpenPgp(String),
    /// No key, slot or attribute answers the request.
    KeyNotFound(String),
    /// Several slots or keys answer the request.
    AmbiguousKey { count: usize },
    /// The key on the token is not one that can be used.
    UnsupportedKeyType(String),
    /// Reading or writing failed.
    Io(String),
    /// Any other error.
    Other(String),
    /// An error that something else caused: what was attempted, and why it failed.
    Context { message: String, cause: String },
}

/// The mathematical content of an [`Error`].
pub enum ErrorView {
    Pkcs11(Seq<char>),
    OpenPgp(Seq<char>),
    KeyNotFound(Seq<char>),
    AmbiguousKey { count: nat },
    UnsupportedKeyType(Seq<char>),
    Io(Seq<char>),
    Other(Seq<char>),
    Context { message: Seq<char>, cause: Seq<char> },
}

impl View for Error {
    type V = ErrorView;

    open spec fn view(&self) -> ErrorView {
        match self {
            Error::Pkcs11(e) => ErrorView::Pkcs11(e@),
            Error::OpenPgp(e) => ErrorView::OpenPgp(e@),
            Error::KeyNotFound(e) => ErrorView::KeyNotFound(e@),
            Error::AmbiguousKey { count } => ErrorView::AmbiguousKey { count: *count as nat },
            Error::UnsupportedKeyType(e) => ErrorView::UnsupportedKeyType(e@),
            Error::Io(e) => ErrorView::Io(e@),
            Error::Other(e) => ErrorView::Other(e@),
            Error::Context { message, cause } => ErrorView::Context {
                message: message@,
                cause: cause@,
            },
        }
    }
}

/// `r` is the error `e`.
pub open spec fn fails_with<T>(r: Result<T, Error>, e: ErrorView) -> bool {
    r matches Err(x) && x@ == e
}

/// What is said to the user of an error.
pub open spec fn error_text(e: ErrorView) -> Seq<char> {
    match e {
        ErrorView::Pkcs11(m) => "PKCS#11: "@ + m,
        ErrorView::OpenPgp(m) => "OpenPGP: "@ + m,
        ErrorView::KeyNotFound(m) => "key not found: "@ + m,
        ErrorView::AmbiguousKey { count } => "ambiguous slot selection: "@ + text::decimal_text(
            count,
        )
            + " token slots found; use --key-uri with token=<label> to identify which token to authenticate against (e.g. pkcs11:token=my-softcard;object=my-key;type=private)"@,
        ErrorView::UnsupportedKeyType(m) => "unsupported key type on HSM: "@ + m,
        ErrorView::Io(m) => "I/O: "@ + m,
        ErrorView::Other(m) => m,
        ErrorView::Context { message, cause } => message,
    }
}

impl Error {
    /// The text of the error, for the user.
    pub fn to_string(&self) -> (out: String)
        ensures
            out@ == error_text(self@),
    {
        match self {
            Error::Pkcs11(m) => text::join2("PKCS#11: ", m.as_str()),
            Error::OpenPgp(m) => text::join2("OpenPGP: ", m.as_str()),
            Error::KeyNotFound(m) => text::join2("key not found: ", m.as_str()),
            Error::AmbiguousKey { count } => text::join3(
                "ambiguous slot selection: ",
                text::decimal(*count as u64).as_str(),
                " token slots found; use --key-uri with token=<label> to identify which token to authenticate against (e.g. pkcs11:token=my-softcard;object=my-key;type=private)",
            ),
            Error::UnsupportedKeyType(m) => text::join2(
                "unsupported key type on HSM: ",
                m.as_str(),
            ),
            Error::Io(m) => text::join2("I/O: ", m.as_str()),
            Error::Other(m) => m.clone(),
            Error::Context { message, .. } => message.clone(),
        }
    }

    /// What caused the error, where that is known.
    pub fn cause(&self) -> (out: Option<&str>)
        ensures
            match self@ {
                ErrorView::Context { message, cause } => out is Some && out->0@ == cause,
                _ => out is None,
            },
    {
        match self {
            Error::Context { cause, .. } => Some(cause.as_str()),
            _ => None,
        }
    }
}

// ---------------------------------------------------------------------------
// Laws
// ---------------------------------------------------------------------------

/// What is said of an error tells its kind, and states all that is known of it.
pub proof fn errors_tell_their_kind(m: Seq<char>, cause: Seq<char>, count: nat)
    ensures
        error_text(ErrorView::Pkcs11(m)) == "PKCS#11: "@ + m,
        error_text(ErrorView::OpenPgp(m)) == "OpenPGP: "@ + m,
        error_text(ErrorView::KeyNotFound(m)) == "key not found: "@ + m,
        error_text(ErrorView::UnsupportedKeyType(m)) == "unsupported key type on HSM: "@ + m,
        error_text(ErrorView::Io(m)) == "I/O: "@ + m,
        error_text(ErrorView::Other(m)) == m,
        error_text(ErrorView::Context { message: m, cause }) == m,
        ("ambiguous slot selection: "@ + text::decimal_text(count)).is_prefix_of(
            error_text(ErrorView::AmbiguousKey { count }),
        ),
{
    let start = "ambiguous slot selection: "@ + text::decimal_text(count);
    let all = error_text(ErrorView::AmbiguousKey { count });
    assert(start =~= all.subrange(0, start.len() as int));
}

} // verus!
