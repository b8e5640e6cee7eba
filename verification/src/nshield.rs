//! The login to an nShield card set with a quorum: K of N cards are presented, one
//! after the other.

use vstd::prelude::*;

use crate::error;
use crate::error::Error;
use crate::text;

verus! {

/// `CKR_FIPS_TOKEN_NOT_PRESENT` of nShield.
pub const CKR_FIPS_TOKEN_NOT_PRESENT: u64 = 0x8000_0001;

/// `CKR_FIPS_MECHANISM_INVALID` of nShield.
pub const CKR_FIPS_MECHANISM_INVALID: u64 = 0x8000_0002;

/// `CKR_FIPS_FUNCTION_NOT_SUPPORTED` of nShield.
pub const CKR_FIPS_FUNCTION_NOT_SUPPORTED: u64 = 0x8000_0003;

/// The name of a return value.
pub open spec fn return_value_text(rv: u64) -> Seq<char> {
    if rv == 0x1 {
        "CKR_CANCEL"@
    } else if rv == 0x2 {
        "CKR_HOST_MEMORY"@
    } else if rv == 0x3 {
        "CKR_SLOT_ID_INVALID"@
    } else if rv == 0x5 {
        "CKR_GENERAL_ERROR"@
    } else if rv == 0x6 {
        "CKR_FUNCTION_FAILED"@
    } else if rv == 0x30 {
        "CKR_PIN_INCORRECT"@
    } else if rv == 0x31 {
        "CKR_PIN_INVALID"@
    } else if rv == 0x32 {
        "CKR_PIN_LEN_RANGE"@
    } else if rv == 0x100 {
        "CKR_SESSION_HANDLE_INVALID"@
    } else if rv == 0x101 {
        "CKR_SESSION_PARALLEL_NOT_SUPPORTED"@
    } else if rv == 0xe0 {
        "CKR_TOKEN_NOT_PRESENT"@
    } else if rv == 0xe1 {
        "CKR_TOKEN_NOT_RECOGNIZED"@
    } else if rv == CKR_FIPS_TOKEN_NOT_PRESENT {
        "CKR_FIPS_TOKEN_NOT_PRESENT (nShield)"@
    } else if rv == CKR_FIPS_MECHANISM_INVALID {
        "CKR_FIPS_MECHANISM_INVALID (nShield)"@
    } else if rv == CKR_FIPS_FUNCTION_NOT_SUPPORTED {
        "CKR_FIPS_FUNCTION_NOT_SUPPORTED (nShield)"@
    } else {
        "unknown CKR error"@
    }
}

/// What is said of a call that returned something else than success.
pub open spec fn call_failed(rv: u64, call: Seq<char>) -> error::ErrorView {
    error::ErrorView::Other(
        call + " returned "@ + text::ckr_hex(rv as nat) + " ("@ + return_value_text(rv) + ")"@,
    )
}

/// Whether the call `call`, which returned `rv`, succeeded.
pub fn ck_ok(rv: u64, call: &str) -> (r: Result<(), Error>)
    ensures
        if rv == 0 {
            r is Ok
        } else {
            error::fails_with(r, call_failed(rv, call@))
        },
{
    if rv == 0 {
        return Ok(());
    }
    let name = if rv == 0x1 {
        "CKR_CANCEL"
    } else if rv == 0x2 {
        "CKR_HOST_MEMORY"
    } else if rv == 0x3 {
        "CKR_SLOT_ID_INVALID"
    } else if rv == 0x5 {
        "CKR_GENERAL_ERROR"
    } else if rv == 0x6 {
        "CKR_FUNCTION_FAILED"
    } else if rv == 0x30 {
        "CKR_PIN_INCORRECT"
    } else if rv == 0x31 {
        "CKR_PIN_INVALID"
    } else if rv == 0x32 {
        "CKR_PIN_LEN_RANGE"
    } else if rv == 0x100 {
        "CKR_SESSION_HANDLE_INVALID"
    } else if rv == 0x101 {
        "CKR_SESSION_PARALLEL_NOT_SUPPORTED"
    } else if rv == 0xe0 {
        "CKR_TOKEN_NOT_PRESENT"
    } else if rv == 0xe1 {
        "CKR_TOKEN_NOT_RECOGNIZED"
    } else if rv == CKR_FIPS_TOKEN_NOT_PRESENT {
        "CKR_FIPS_TOKEN_NOT_PRESENT (nShield)"
    } else if rv == CKR_FIPS_MECHANISM_INVALID {
        "CKR_FIPS_MECHANISM_INVALID (nShield)"
    } else if rv == CKR_FIPS_FUNCTION_NOT_SUPPORTED {
        "CKR_FIPS_FUNCTION_NOT_SUPPORTED (nShield)"
    } else {
        "unknown CKR error"
    };
    let mut message = text::join3(call, " returned ", text::padded_hex(rv).as_str());
    message.append(" (");
    message.append(name);
    message.append(")");
    Err(Error::Other(message))
}

/// A login that is under way: `k` of `n` cards are needed, the card with the number
/// `card`, counted from one, is next, and so many shares are still missing.
#[derive(Debug, Clone, Copy, PartialEq, Eq, Structural)]
pub struct NshieldQuorumLogin {
    pub k: u64,
    pub n: u64,
    pub card: u64,
    pub shares_left: u64,
}

/// What comes next in a login.
#[derive(Debug)]
pub enum QuorumStep {
    /// The passphrase of a card is asked for, with the number of the card and that of the
    /// missing shares, and handed to `C_LoginNext`.
    Present(NshieldQuorumLogin),
    /// `C_LoginEnd` is called.
    End,
}

/// What is announced when a login begins.
pub open spec fn announcement(k: u64, n: u64) -> Seq<char> {
    "OCS quorum login: need "@ + text::decimal_text(k as nat) + " of "@ + text::decimal_text(
        n as nat,
    ) + " cards."@
}

/// The step is to present `card`, or to end the login where no share is missing.
pub open spec fn continues(step: QuorumStep, k: u64, n: u64, card: u64, shares_left: u64) -> bool {
    if shares_left > 0 {
        step == QuorumStep::Present(NshieldQuorumLogin { k, n, card, shares_left })
    } else {
        step is End
    }
}

/// The name of a call that presents a card.
pub open spec fn next_call(card: u64) -> Seq<char> {
    "C_LoginNext (card "@ + text::decimal_text(card as nat) + ")"@
}

impl NshieldQuorumLogin {
    /// Begins a login, from what `C_LoginBegin` returned: `k` of `n` cards are needed.
    pub fn quorum_login(rv: u64, k: u64, n: u64) -> (r: Result<(String, QuorumStep), Error>)
        ensures
            if rv == 0 {
                r matches Ok((text, step)) && text@ == announcement(k, n) && continues(
                    step,
                    k,
                    n,
                    1,
                    k,
                )
            } else {
                error::fails_with(r, call_failed(rv, "C_LoginBegin"@))
            },
    {
        match ck_ok(rv, "C_LoginBegin") {
            Ok(()) => {},
            Err(e) => {
                return Err(e);
            },
        }
        let mut text = text::join3(
            "OCS quorum login: need ",
            text::decimal(k).as_str(),
            " of ",
        );
        text.append(text::decimal(n).as_str());
        text.append(" cards.");
        let step = if k > 0 {
            QuorumStep::Present(NshieldQuorumLogin { k, n, card: 1, shares_left: k })
        } else {
            QuorumStep::End
        };
        Ok((text, step))
    }

    /// Goes on after a card was presented, from what `C_LoginNext` returned: so many
    /// shares are still missing.
    pub fn presented(self, rv: u64, shares_left: u64) -> (r: Result<QuorumStep, Error>)
        requires
            self.card < u64::MAX,
        ensures
            if rv == 0 {
                r matches Ok(step) && continues(
                    step,
                    self.k,
                    self.n,
                    (self.card + 1) as u64,
                    shares_left,
                )
            } else {
                error::fails_with(r, call_failed(rv, next_call(self.card)))
            },
    {
        let call = text::join3("C_LoginNext (card ", text::decimal(self.card).as_str(), ")");
        match ck_ok(rv, call.as_str()) {
            Ok(()) => {},
            Err(e) => {
                return Err(e);
            },
        }
        if shares_left > 0 {
            Ok(
                QuorumStep::Present(
                    NshieldQuorumLogin { k: self.k, n: self.n, card: self.card + 1, shares_left },
                ),
            )
        } else {
            Ok(QuorumStep::End)
        }
    }

    /// Ends a login, from what `C_LoginEnd` returned.
    pub fn ended(rv: u64) -> (r: Result<(), Error>)
        ensures
            if rv == 0 {
                r is Ok
            } else {
                error::fails_with(r, call_failed(rv, "C_LoginEnd"@))
            },
    {
        ck_ok(rv, "C_LoginEnd")
    }
}

// ---------------------------------------------------------------------------
// Laws
// ---------------------------------------------------------------------------

/// Where each card brings one share, the cards are asked for with `1` and `k`, `2` and
/// `k - 1`, and so on, and the login ends with the card `k`.
pub proof fn one_card_per_share(login: NshieldQuorumLogin, next: QuorumStep)
    requires
        login.card >= 1 && login.shares_left >= 1,
        login.card + login.shares_left == login.k + 1,
        continues(
            next,
            login.k,
            login.n,
            (login.card + 1) as u64,
            (login.shares_left - 1) as u64,
        ),
    ensures
        next is End <==> login.card == login.k,
        next matches QuorumStep::Present(b) ==> b.card == login.card + 1 && b.card + b.shares_left
            == b.k + 1 && b.k == login.k,
{
}

/// A step presents the card that is next, with as many shares as are still missing, for
/// the same quorum; the login ends exactly when no share is missing.
pub proof fn steps_present_the_next_card(
    step: QuorumStep,
    k: u64,
    n: u64,
    card: u64,
    shares_left: u64,
)
    requires
        continues(step, k, n, card, shares_left),
    ensures
        step is End <==> shares_left == 0,
        step matches QuorumStep::Present(l) ==> l.k == k && l.n == n && l.card == card
            && l.shares_left == shares_left,
{
}

/// Return values go by the names of PKCS#11 and, in the range of the vendor, of nShield.
pub proof fn return_values_have_their_names(rv: u64)
    ensures
        rv == 0x01 ==> return_value_text(rv) == "CKR_CANCEL"@,
        rv == 0x02 ==> return_value_text(rv) == "CKR_HOST_MEMORY"@,
        rv == 0x03 ==> return_value_text(rv) == "CKR_SLOT_ID_INVALID"@,
        rv == 0x05 ==> return_value_text(rv) == "CKR_GENERAL_ERROR"@,
        rv == 0x06 ==> return_value_text(rv) == "CKR_FUNCTION_FAILED"@,
        rv == 0x30 ==> return_value_text(rv) == "CKR_PIN_INCORRECT"@,
        rv == 0x31 ==> return_value_text(rv) == "CKR_PIN_INVALID"@,
        rv == 0x32 ==> return_value_text(rv) == "CKR_PIN_LEN_RANGE"@,
        rv == 0xe0 ==> return_value_text(rv) == "CKR_TOKEN_NOT_PRESENT"@,
        rv == 0xe1 ==> return_value_text(rv) == "CKR_TOKEN_NOT_RECOGNIZED"@,
        rv == 0x100 ==> return_value_text(rv) == "CKR_SESSION_HANDLE_INVALID"@,
        rv == 0x101 ==> return_value_text(rv) == "CKR_SESSION_PARALLEL_NOT_SUPPORTED"@,
        rv == 0x8000_0001 ==> return_value_text(rv) == "CKR_FIPS_TOKEN_NOT_PRESENT (nShield)"@,
        rv == 0x8000_0002 ==> return_value_text(rv) == "CKR_FIPS_MECHANISM_INVALID (nShield)"@,
        rv == 0x8000_0003 ==> return_value_text(rv) == "CKR_FIPS_FUNCTION_NOT_SUPPORTED (nShield)"@,
{
}

/// What is said of a failed call starts with the call, and states the whole return value.
pub proof fn failed_calls_are_named(rv: u64, call: Seq<char>)
    ensures
        call_failed(rv, call) matches error::ErrorView::Other(m) && m == call + " returned "@
            + text::ckr_hex(rv as nat) + " ("@ + return_value_text(rv) + ")"@,
{
}

/// The announcement states how many cards are needed, and of how many.
pub proof fn announcements_state_the_quorum(k: u64, n: u64)
    ensures
        announcement(k, n) == "OCS quorum login: need "@ + text::decimal_text(k as nat) + " of "@
            + text::decimal_text(n as nat) + " cards."@,
        next_call(k) == "C_LoginNext (card "@ + text::decimal_text(k as nat) + ")"@,
{
}

} // verus!
