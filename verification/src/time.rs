//! Times and periods, as they are given on the command line.

use vstd::prelude::*;

use crate::calendar;
use crate::error;
use crate::error::Error;
use crate::openpgp;
use crate::openpgp::UnixTime;
use crate::text;

verus! {

// ---------------------------------------------------------------------------
// Digits
// ---------------------------------------------------------------------------

/// Whether a character is a decimal digit of ASCII.
pub open spec fn is_digit(c: char) -> bool {
    '0' <= c <= '9'
}

/// Whether a text is a decimal number: one digit or more, and nothing else.
pub open spec fn is_number(s: Seq<char>) -> bool {
    s.len() > 0 && forall|i: int| 0 <= i < s.len() ==> is_digit(#[trigger] s[i])
}

/// The number that decimal digits denote.
pub open spec fn number(s: Seq<char>) -> nat
    decreases s.len(),
{
    if s.len() == 0 {
        0
    } else {
        number(s.drop_last()) * 10 + (s.last() as u32 - '0' as u32) as nat
    }
}

/// Writing a number and reading it gives back the number.
pub proof fn number_round_trip(n: nat)
    ensures
        is_number(text::decimal_text(n)),
        number(text::decimal_text(n)) == n,
    decreases n,
{
    let s = text::decimal_text(n);
    if n >= 10 {
        number_round_trip(n / 10);
        assert(s.drop_last() =~= text::decimal_text(n / 10));
        assert forall|i: int| 0 <= i < s.len() implies is_digit(#[trigger] s[i]) by {
            if i < s.len() - 1 {
                assert(s[i] == text::decimal_text(n / 10)[i]);
            }
        }
    } else {
        assert(number(s.drop_last()) == 0);
        assert(s.last() == text::decimal_digit(n));
    }
}

/// The number that `chars[from..to]` denotes, cut off at the largest `u64`, or
/// nothing where that is no number.
fn read_number(chars: &Vec<char>, from: usize, to: usize) -> (r: Option<u64>)
    requires
        from <= to <= chars.len(),
    ensures
        match r {
            Some(n) => is_number(chars@.subrange(from as int, to as int)) && n == saturated(
                number(chars@.subrange(from as int, to as int)),
            ),
            None => !is_number(chars@.subrange(from as int, to as int)),
        },
{
    if from == to {
        return None;
    }
    let ghost part = chars@.subrange(from as int, to as int);
    let mut n: u64 = 0;
    let mut i: usize = from;
    assert(part.take(0) =~= Seq::empty());
    while i < to
        invariant
            from <= i <= to <= chars.len(),
            part == chars@.subrange(from as int, to as int),
            forall|k: int| 0 <= k < i - from ==> is_digit(#[trigger] part[k]),
            n == saturated(number(part.take(i - from))),
        decreases to - i,
    {
        let c: char = chars[i];
        assert(c == part[i - from]);
        if c < '0' || '9' < c {
            return None;
        }
        assert(part.take(i - from + 1).drop_last() =~= part.take(i - from));
        let d: u64 = (c as u32 - '0' as u32) as u64;
        n = saturating_product(n, 10).saturating_add(d);
        i += 1;
    }
    assert(part.take(part.len() as int) =~= part);
    Some(n)
}

/// The product of `a` and `b`, cut off at the largest `u64`.
fn saturating_product(a: u64, b: u64) -> (r: u64)
    ensures
        r == saturated((a * b) as nat),
{
    assert(a * b >= 0) by (nonlinear_arith);
    match a.checked_mul(b) {
        Some(p) => p,
        None => u64::MAX,
    }
}

/// A number cut off at the largest `u64`.
pub open spec fn saturated(n: nat) -> u64 {
    if n <= u64::MAX {
        n as u64
    } else {
        u64::MAX
    }
}

// ---------------------------------------------------------------------------
// Creation times
// ---------------------------------------------------------------------------

/// What an RFC 3339 timestamp stands for: seconds and nanoseconds since the epoch,
/// or what is said of the text where it is no such timestamp.
pub uninterp spec fn rfc3339(s: Seq<char>) -> Result<(u64, u32), Seq<char>>;

/// `r` is what `humantime` reads from a text that means `meant`: the time that it
/// stands for, unless the machine's clock cannot express it.
pub open spec fn reads_time(
    meant: Result<(u64, u32), Seq<char>>,
    r: Result<UnixTime, String>,
) -> bool {
    match meant {
        Ok((secs, nanos)) => {
            &&& openpgp::clock_covers(secs as int) ==> r is Ok
            &&& r matches Ok(t) ==> t == (UnixTime { secs, nanos }) && secs <= 253_402_300_799
        },
        Err(message) => r matches Err(e) && e@ == message,
    }
}

/// `humantime::parse_rfc3339` reads an RFC 3339 timestamp in UTC from the years
/// 1970 to 9999.  What it reads is named.  It may refuse times that the machine's clock
/// cannot express.
#[verifier::external_body]
pub(crate) fn parse_rfc3339(s: &str) -> (r: Result<UnixTime, String>)
    ensures
        reads_time(rfc3339(s@), r),
{
    match humantime::parse_rfc3339(s) {
        Ok(t) => match t.duration_since(std::time::UNIX_EPOCH) {
            Ok(d) => Ok(UnixTime { secs: d.as_secs(), nanos: d.subsec_nanos() }),
            Err(e) => Err(e.to_string()),
        },
        Err(e) => Err(e.to_string()),
    }
}

/// What `humantime` writes for a time: an RFC 3339 timestamp with whole seconds.
pub uninterp spec fn rfc3339_text(secs: u64) -> Seq<char>;

/// `humantime::format_rfc3339_seconds` writes a time as an RFC 3339 timestamp.  The
/// text is named.  It has no notation for years after 9999, and panics on them.
#[verifier::external_body]
pub(crate) fn format_rfc3339(secs: u64) -> (out: String)
    requires
        secs <= 253_402_300_799,
        openpgp::clock_covers(secs as int),
    ensures
        out@ == rfc3339_text(secs),
{
    let t = std::time::UNIX_EPOCH + std::time::Duration::from_secs(secs);
    humantime::format_rfc3339_seconds(t).to_string()
}

/// What is said of a creation time that is no timestamp.
pub open spec fn bad_creation_time(s: Seq<char>, cause: Seq<char>) -> error::ErrorView {
    error::ErrorView::Context {
        message: "invalid --creation-time "@ + text::debug_text(s)
            + "; use RFC 3339, e.g. 2026-04-30T16:29:30Z"@,
        cause,
    }
}

/// Whether the machine's clock can express the time that a timestamp stands for, if it
/// stands for one.
pub open spec fn time_known(s: Seq<char>) -> bool {
    rfc3339(s) matches Ok((secs, nanos)) ==> openpgp::clock_covers(secs as int)
}

/// What a timestamp on the command line stands for.
pub open spec fn time_of(s: Seq<char>) -> Result<UnixTime, error::ErrorView> {
    match rfc3339(s) {
        Ok((secs, nanos)) => Ok(UnixTime { secs, nanos }),
        Err(cause) => Err(bad_creation_time(s, cause)),
    }
}

/// Whether a time is one that timestamps can stand for on this machine.
pub open spec fn is_ordinary(t: UnixTime) -> bool {
    t.secs <= 253_402_300_799 && openpgp::clock_covers(t.secs as int)
}

/// `r` is what a timestamp on the command line stands for; a time that the machine's
/// clock cannot express is refused.
pub open spec fn is_time_of(s: Seq<char>, r: Result<UnixTime, Error>) -> bool {
    if time_known(s) {
        match time_of(s) {
            Ok(t) => r matches Ok(u) && u == t && is_ordinary(t),
            Err(e) => error::fails_with(r, e),
        }
    } else {
        r matches Err(e) && e@ is Context
    }
}

/// Reads a timestamp; without one, the time is the epoch.
pub fn parse_creation_time(s: Option<&str>) -> (r: Result<UnixTime, Error>)
    ensures
        match s {
            None => r == Ok::<UnixTime, Error>(UnixTime { secs: 0, nanos: 0 }),
            Some(ts) => is_time_of(ts@, r),
        },
{
    match s {
        None => Ok(UnixTime::epoch()),
        Some(ts) => {
            let cause = match parse_rfc3339(ts) {
                Ok(t) => {
                    if openpgp::clock_reaches(t.secs) {
                        return Ok(t);
                    }
                    "the time is beyond the clock of this machine".to_owned()
                },
                Err(cause) => cause,
            };
            Err(
                Error::Context {
                    message: text::join3(
                        "invalid --creation-time ",
                        text::debug_str(ts).as_str(),
                        "; use RFC 3339, e.g. 2026-04-30T16:29:30Z",
                    ),
                    cause,
                },
            )
        },
    }
}

/// What is said where the option `flag` is missing.
pub open spec fn missing_creation_time(flag: Seq<char>) -> error::ErrorView {
    error::ErrorView::Other(
        flag
            + " is required: the fingerprint covers the creation time, so that it must be the same value every time"@,
    )
}

/// The error for the missing option `flag`.
pub(crate) fn without_creation_time(flag: &str) -> (e: Error)
    ensures
        e@ == missing_creation_time(flag@),
{
    Error::Other(
        text::join2(
            flag,
            " is required: the fingerprint covers the creation time, so that it must be the same value every time",
        ),
    )
}

/// Reads the timestamp that the option `flag` gives.  There is no default: a
/// fingerprint that rests on a forgotten creation time designates no published key.
pub fn require_creation_time(s: Option<&str>, flag: &str) -> (r: Result<UnixTime, Error>)
    ensures
        match s {
            None => error::fails_with(r, missing_creation_time(flag@)),
            Some(ts) => is_time_of(ts@, r),
        },
{
    match s {
        None => Err(without_creation_time(flag)),
        Some(_) => parse_creation_time(s),
    }
}

// ---------------------------------------------------------------------------
// Periods
// ---------------------------------------------------------------------------

/// A length of time.
#[derive(Debug, Clone, Copy, PartialEq, Eq, Structural)]
pub struct Period {
    pub secs: u64,
    pub nanos: u32,
}

impl Period {
    /// The whole seconds of the period.
    pub fn as_secs(&self) -> (secs: u64)
        ensures
            secs == self.secs,
    {
        self.secs
    }
}

/// The seconds of a year of 365.25 days.
pub const YEAR_SECONDS: u64 = 31_557_600;

/// What a text such as `30d` or `1h 30min` stands for: seconds and nanoseconds, or
/// what is said of the text where it stands for no period.
pub uninterp spec fn duration(s: Seq<char>) -> Result<(u64, u32), Seq<char>>;

/// A bound on the period that a text stands for, while it is read: the number that is
/// being read, whether its fraction has begun, and the seconds up to there.
#[derive(Debug, Clone, Copy, PartialEq, Eq, Structural)]
pub struct Estimate {
    pub number: u64,
    pub fraction: bool,
    pub seconds: u64,
}

/// How many seconds `n` and a fraction come to at most in a unit that starts with `c`.
pub open spec fn most_seconds(n: u64, c: char) -> nat {
    if c == 'n' || c == 'u' || c == 'µ' {
        (n / 1_000_000 + 1) as nat
    } else if c == 's' {
        (n + 1) as nat
    } else if c == 'h' {
        ((n + 1) * 3_600) as nat
    } else if c == 'd' {
        ((n + 1) * 86_400) as nat
    } else if c == 'w' {
        ((n + 1) * 604_800) as nat
    } else if c == 'm' || c == 'M' {
        // Minutes, months or milliseconds.
        ((n + 1) * 2_630_016) as nat
    } else if c == 'y' {
        ((n + 1) * YEAR_SECONDS) as nat
    } else {
        0
    }
}

/// The bound with one more character: a digit of a number, the point before its fraction,
/// the white space within it, or a letter, which ends it.
pub open spec fn estimate_with(e: Estimate, c: char) -> Estimate {
    if is_digit(c) {
        if e.fraction {
            e
        } else {
            Estimate {
                number: saturated((e.number * 10 + (c as u32 - '0' as u32)) as nat),
                ..e
            }
        }
    } else if c == '.' {
        Estimate { fraction: true, ..e }
    } else if text::white_space(c) {
        e
    } else {
        Estimate {
            number: 0,
            fraction: false,
            seconds: saturated(e.seconds as nat + most_seconds(e.number, c)),
        }
    }
}

/// The bound on the period that a text stands for.
pub open spec fn estimate(s: Seq<char>) -> Estimate
    decreases s.len(),
{
    if s.len() == 0 {
        Estimate { number: 0, fraction: false, seconds: 0 }
    } else {
        estimate_with(estimate(s.drop_last()), s.last())
    }
}

/// Whether a text names fractions of seconds, or could do so.
pub open spec fn may_hold_fractions(s: Seq<char>) -> bool {
    s.contains('n') || s.contains('u') || s.contains('m') || s.contains('µ') || s.contains('.')
}

/// Whether a text stands for a period that can be computed without an overflow of
/// the seconds by a carry from the nanoseconds: it comes to fewer seconds than the
/// largest `u64`, or it names no fractions of seconds.
pub open spec fn is_moderate(s: Seq<char>) -> bool {
    estimate(s).seconds < u64::MAX || !may_hold_fractions(s)
}

/// The seconds of a week, a day or an hour, by its letter.
pub open spec fn unit_seconds(c: char) -> Option<nat> {
    if c == 'w' {
        Some(604_800)
    } else if c == 'd' {
        Some(86_400)
    } else if c == 'h' {
        Some(3_600)
    } else {
        None
    }
}

/// The seconds of a number of weeks, days or hours: a number and the unit's letter.
pub open spec fn fixed_seconds(s: Seq<char>) -> Option<nat> {
    if s.len() > 0 && is_number(s.drop_last()) {
        match unit_seconds(s.last()) {
            Some(unit) => Some(number(s.drop_last()) * unit),
            None => None,
        }
    } else {
        None
    }
}

/// `r` is what `humantime` reads from a text that means `meant`.  Of a number of weeks,
/// days or hours it is that many times a fixed number of seconds, as long as that fits.
pub open spec fn reads_period(
    s: Seq<char>,
    meant: Result<(u64, u32), Seq<char>>,
    r: Result<Period, String>,
) -> bool {
    &&& match meant {
        Ok((secs, nanos)) => r matches Ok(p) && p == (Period { secs, nanos }),
        Err(message) => r matches Err(e) && e@ == message,
    }
    &&& fixed_seconds(s) matches Some(secs) ==> (secs <= u64::MAX ==> (r matches Ok(p) && p == (
    Period { secs: secs as u64, nanos: 0 })))
}

/// `humantime::parse_duration` reads a period.  What it reads is named, apart from
/// what [`reads_period`] says of weeks, days and hours.  The function panics on some
/// texts whose seconds reach the largest `u64` when nanoseconds are added, which
/// [`is_moderate`] excludes.
#[verifier::external_body]
pub(crate) fn parse_duration(s: &str) -> (r: Result<Period, String>)
    requires
        is_moderate(s@),
    ensures
        reads_period(s@, duration(s@), r),
{
    match humantime::parse_duration(s) {
        Ok(d) => Ok(Period { secs: d.as_secs(), nanos: d.subsec_nanos() }),
        Err(e) => Err(e.to_string()),
    }
}

/// A count of years: digits, with a sign before them or not.
pub open spec fn year_count(s: Seq<char>) -> Option<int> {
    if is_number(s) {
        Some(number(s) as int)
    } else if s.len() > 0 && s[0] == '+' && is_number(s.skip(1)) {
        Some(number(s.skip(1)) as int)
    } else if s.len() > 0 && s[0] == '-' && is_number(s.skip(1)) {
        Some(-(number(s.skip(1)) as int))
    } else {
        None
    }
}

/// What is said of a count of years that is none.
pub open spec fn bad_years(s: Seq<char>, count: Seq<char>) -> error::ErrorView {
    error::ErrorView::Context {
        message: "invalid years value in --validity-period "@ + text::debug_text(s),
        cause: if count.len() == 0 {
            "cannot parse integer from empty string"@
        } else {
            "invalid digit found in string"@
        },
    }
}

/// The years that a period in years states, cut off at the largest `u64`; the text
/// is trimmed and ends in `y`.
pub open spec fn years(s: Seq<char>) -> Result<u64, error::ErrorView> {
    let count = text::trimmed(s.drop_last());
    match year_count(count) {
        None => Err(bad_years(s, count)),
        Some(n) => if n < 0 {
            Err(error::ErrorView::Other("--validity-period must be non-negative"@))
        } else {
            Ok(saturated(n as nat))
        },
    }
}

/// Reads a period in years.
fn parse_years(s: &String) -> (r: Result<u64, Error>)
    requires
        s@.len() > 0,
    ensures
        match years(s@) {
            Ok(n) => r matches Ok(m) && m == n,
            Err(e) => error::fails_with(r, e),
        },
{
    let chars = text::chars_of(s.as_str());
    let head = text::string_of(&chars, 0, chars.len() - 1);
    assert(head@ =~= s@.drop_last());
    let count = text::chars_of(text::trim(head.as_str()).as_str());
    let signed = count.len() > 0 && (count[0] == '+' || count[0] == '-');
    let from: usize = if signed { 1 } else { 0 };
    assert(from == 0 ==> count@.subrange(0, count@.len() as int) =~= count@);
    assert(from == 1 ==> count@.subrange(1, count@.len() as int) =~= count@.skip(1));
    proof {
        if signed {
            assert(!is_digit(count@[0]));
            assert(!is_number(count@));
        }
    }
    match read_number(&count, from, count.len()) {
        Some(n) => {
            if signed && count[0] == '-' && n > 0 {
                Err(Error::Other("--validity-period must be non-negative".to_owned()))
            } else {
                Ok(n)
            }
        },
        None => {
            let cause = if count.len() == 0 {
                "cannot parse integer from empty string"
            } else {
                "invalid digit found in string"
            };
            Err(
                Error::Context {
                    message: text::join2(
                        "invalid years value in --validity-period ",
                        text::debug_str(s.as_str()).as_str(),
                    ),
                    cause: cause.to_owned(),
                },
            )
        },
    }
}

/// What is said of a text that stands for no period.
pub open spec fn bad_period(s: Seq<char>, cause: Seq<char>) -> error::ErrorView {
    error::ErrorView::Context {
        message: "invalid --validity-period "@ + text::debug_text(s)
            + "; use Ny, Nw, Nd, or Nh (e.g. 5y, 60d)"@,
        cause,
    }
}

/// The period that `duration` gives, under the errors of the command line.
pub open spec fn plain_period(s: Seq<char>) -> Result<Period, error::ErrorView> {
    match duration(s) {
        Ok((secs, nanos)) => Ok(Period { secs, nanos }),
        Err(cause) => Err(bad_period(s, cause)),
    }
}

/// Whether a trimmed text states a period in years.
pub open spec fn in_years(s: Seq<char>) -> bool {
    s.len() > 0 && s.last() == 'y'
}

fn ends_in_y(s: &String) -> (r: bool)
    ensures
        r == in_years(s@),
{
    let chars = text::chars_of(s.as_str());
    chars.len() > 0 && chars[chars.len() - 1] == 'y'
}

/// Reads a period that is not given in years.
fn parse_plain(s: &String) -> (r: Result<Period, Error>)
    requires
        is_moderate(s@),
    ensures
        match plain_period(s@) {
            Ok(p) => r matches Ok(q) && q == p,
            Err(e) => error::fails_with(r, e),
        },
        fixed_seconds(s@) matches Some(secs) ==> (secs <= u64::MAX ==> r == Ok::<Period, Error>(
            Period { secs: secs as u64, nanos: 0 },
        )),
{
    match parse_duration(s.as_str()) {
        Ok(p) => Ok(p),
        Err(cause) => Err(
            Error::Context {
                message: text::join3(
                    "invalid --validity-period ",
                    text::debug_str(s.as_str()).as_str(),
                    "; use Ny, Nw, Nd, or Nh (e.g. 5y, 60d)",
                ),
                cause,
            },
        ),
    }
}

/// Whether a text can be read as a period: it counts years, or is moderate.
pub open spec fn is_readable(s: Seq<char>) -> bool {
    in_years(text::trimmed(s)) || is_moderate(text::trimmed(s))
}

/// The period that a text on the command line stands for, with a year of 365.25 days.
pub open spec fn validity(s: Seq<char>) -> Result<Period, error::ErrorView> {
    let t = text::trimmed(s);
    if in_years(t) {
        match years(t) {
            Ok(n) => Ok(Period { secs: saturated((n * YEAR_SECONDS) as nat), nanos: 0 }),
            Err(e) => Err(e),
        }
    } else {
        plain_period(t)
    }
}

/// Reads a period: `Ny` for years of 365.25 days, and otherwise what
/// [`parse_duration`] reads.
pub fn parse_validity(s: &str) -> (r: Result<Period, Error>)
    requires
        is_readable(s@),
    ensures
        match validity(s@) {
            Ok(p) => r matches Ok(q) && q == p,
            Err(e) => error::fails_with(r, e),
        },
        !in_years(text::trimmed(s@)) ==> (fixed_seconds(text::trimmed(s@)) matches Some(secs) ==> (
        secs <= u64::MAX ==> r == Ok::<Period, Error>(Period { secs: secs as u64, nanos: 0 }))),
{
    let t = text::trim(s);
    if ends_in_y(&t) {
        match parse_years(&t) {
            Ok(n) => Ok(Period { secs: saturating_product(n, YEAR_SECONDS), nanos: 0 }),
            Err(e) => Err(e),
        }
    } else {
        parse_plain(&t)
    }
}

/// The period that a text on the command line stands for when it begins at `start`:
/// years follow the calendar, all other units are fixed lengths of time.
pub open spec fn validity_from(s: Seq<char>, start: u64) -> Result<Period, error::ErrorView> {
    let t = text::trimmed(s);
    if in_years(t) {
        match years(t) {
            Ok(n) => Ok(
                Period {
                    secs: saturated(
                        (calendar::seconds_later(start as nat, n as nat) - start) as nat,
                    ),
                    nanos: 0,
                },
            ),
            Err(e) => Err(e),
        }
    } else {
        plain_period(t)
    }
}

/// Reads a period that begins at `start`.
///
/// `5y` from 2026-05-10T19:53:26Z ends at 2031-05-10T19:53:26Z, however many leap
/// years fall in between.
pub fn parse_validity_from(s: &str, start: UnixTime) -> (r: Result<Period, Error>)
    requires
        is_readable(s@),
    ensures
        match validity_from(s@, start.secs) {
            Ok(p) => r matches Ok(q) && q == p,
            Err(e) => error::fails_with(r, e),
        },
        !in_years(text::trimmed(s@)) ==> (fixed_seconds(text::trimmed(s@)) matches Some(secs) ==> (
        secs <= u64::MAX ==> r == Ok::<Period, Error>(Period { secs: secs as u64, nanos: 0 }))),
{
    let t = text::trim(s);
    if ends_in_y(&t) {
        match parse_years(&t) {
            Ok(n) => {
                let later: u128 = calendar::add_years(start.secs, n);
                let span: u128 = later - start.secs as u128;
                let secs: u64 = if span <= u64::MAX as u128 { span as u64 } else { u64::MAX };
                Ok(Period { secs, nanos: 0 })
            },
            Err(e) => Err(e),
        }
    } else {
        parse_plain(&t)
    }
}

fn bound_seconds(n: u64, c: char) -> (r: u128)
    ensures
        r == most_seconds(n, c),
{
    if c == 'n' || c == 'u' || c == 'µ' {
        (n / 1_000_000) as u128 + 1
    } else if c == 's' {
        n as u128 + 1
    } else if c == 'h' {
        (n as u128 + 1) * 3_600
    } else if c == 'd' {
        (n as u128 + 1) * 86_400
    } else if c == 'w' {
        (n as u128 + 1) * 604_800
    } else if c == 'm' || c == 'M' {
        (n as u128 + 1) * 2_630_016
    } else if c == 'y' {
        (n as u128 + 1) * 31_557_600
    } else {
        0
    }
}

fn estimate_next(e: Estimate, c: char) -> (r: Estimate)
    ensures
        r == estimate_with(e, c),
{
    if '0' <= c && c <= '9' {
        if e.fraction {
            return e;
        }
        let d: u64 = (c as u32 - '0' as u32) as u64;
        let number: u64 = saturating_product(e.number, 10).saturating_add(d);
        Estimate { number, fraction: e.fraction, seconds: e.seconds }
    } else if c == '.' {
        Estimate { number: e.number, fraction: true, seconds: e.seconds }
    } else if c.is_whitespace() {
        e
    } else {
        let sum: u128 = e.seconds as u128 + bound_seconds(e.number, c);
        let seconds: u64 = if sum <= u64::MAX as u128 { sum as u64 } else { u64::MAX };
        Estimate { number: 0, fraction: false, seconds }
    }
}

/// Whether [`parse_validity`] and [`parse_validity_from`] can be called on `s`.
pub fn can_parse_validity(s: &str) -> (r: bool)
    ensures
        r == is_readable(s@),
{
    let trimmed = text::trim(s);
    if ends_in_y(&trimmed) {
        return true;
    }
    let chars = text::chars_of(trimmed.as_str());
    let mut e = Estimate { number: 0, fraction: false, seconds: 0 };
    let mut fractions = false;
    let mut i: usize = 0;
    let ghost all = chars@;
    assert(all.take(0) =~= Seq::empty());
    while i < chars.len()
        invariant
            i <= chars.len(),
            all == chars@,
            e == estimate(all.take(i as int)),
            fractions == may_hold_fractions(all.take(i as int)),
        decreases chars.len() - i,
    {
        let c: char = chars[i];
        proof {
            let before = all.take(i as int);
            let now = all.take(i + 1);
            assert(now.drop_last() =~= before);
            assert(now =~= before.push(c));
            assert forall|x: char| #[trigger] now.contains(x) == (before.contains(x) || x == c) by {
                if before.contains(x) {
                    let k = choose|k: int| 0 <= k < before.len() && before[k] == x;
                    assert(now[k] == x);
                }
                if x == c {
                    assert(now[before.len() as int] == x);
                }
            }
        }
        e = estimate_next(e, c);
        if c == 'n' || c == 'u' || c == 'm' || c == 'µ' || c == '.' {
            fractions = true;
        }
        i += 1;
    }
    assert(all.take(i as int) =~= all);
    e.seconds < u64::MAX || !fractions
}

// ---------------------------------------------------------------------------
// Laws
// ---------------------------------------------------------------------------

/// A number of weeks, days or hours is that many times a fixed number of seconds,
/// wherever the period begins.
pub proof fn fixed_units_do_not_depend_on_the_start(s: Seq<char>, a: u64, b: u64)
    requires
        !in_years(text::trimmed(s)),
    ensures
        validity_from(s, a) == validity_from(s, b),
        validity_from(s, a) == validity(s),
{
}

/// A period of `n` years from a time ends `n` years later by the calendar.
pub proof fn years_end_on_the_date(s: Seq<char>, start: u64, n: u64)
    requires
        in_years(text::trimmed(s)),
        years(text::trimmed(s)) == Ok::<u64, error::ErrorView>(n),
        calendar::seconds_later(start as nat, n as nat) <= u64::MAX,
    ensures
        validity_from(s, start) matches Ok(p) && start + p.secs == calendar::seconds_later(
            start as nat,
            n as nat,
        ),
{
    calendar::years_later_is_not_before(start as nat, n as nat);
}

/// The notation `Ny` stands for `N` years.
pub proof fn year_notation(n: u64)
    ensures
        ({
            let s = text::decimal_text(n as nat).push('y');
            &&& text::trimmed(s) == s
            &&& in_years(s)
            &&& years(s) == Ok::<u64, error::ErrorView>(n)
        }),
{
    number_round_trip(n as nat);
    let digits = text::decimal_text(n as nat);
    let s = digits.push('y');
    assert(is_digit(digits[0]) && is_digit(digits.last()));
    assert(s[0] == digits[0]);
    assert(s.drop_last() =~= digits);
    assert(text::trimmed(digits) == digits);
}

/// What a timestamp stands for is what is read from it, to the nanosecond; it is refused
/// exactly if it is no timestamp.
pub proof fn times_are_as_read(s: Seq<char>)
    ensures
        time_of(s) is Ok <==> rfc3339(s) is Ok,
        time_of(s) matches Ok(t) ==> rfc3339(s) == Ok::<(u64, u32), Seq<char>>((t.secs, t.nanos)),
{
}

/// Reading a timestamp succeeds exactly if it is one and the clock of the machine reaches
/// that time, and gives that time.
pub proof fn timestamps_are_read_within_the_clock(s: Seq<char>, r: Result<UnixTime, Error>)
    requires
        is_time_of(s, r),
    ensures
        r is Ok <==> (rfc3339(s) matches Ok((secs, nanos)) && openpgp::clock_covers(secs as int)),
        r matches Ok(t) ==> rfc3339(s) == Ok::<(u64, u32), Seq<char>>((t.secs, t.nanos)),
{
}

/// A count of years may have a sign before it and a blank behind it; a count below zero is
/// refused, and so is none at all.
pub proof fn counts_of_years(n: u64)
    ensures
        years(seq!['+'] + text::decimal_text(n as nat) + seq!['y']) == Ok::<u64, error::ErrorView>(
            n,
        ),
        years(text::decimal_text(n as nat) + seq![' ', 'y']) == Ok::<u64, error::ErrorView>(n),
        n > 0 ==> years(seq!['-'] + text::decimal_text(n as nat) + seq!['y']) is Err,
        years(seq!['y']) is Err,
{
    number_round_trip(n as nat);
    let digits = text::decimal_text(n as nat);
    assert(is_digit(digits[0]) && is_digit(digits.last()));
    let plus = seq!['+'] + digits;
    let minus = seq!['-'] + digits;
    let none = Seq::<char>::empty();
    assert((plus + seq!['y']).drop_last() =~= plus);
    assert((minus + seq!['y']).drop_last() =~= minus);
    assert((digits + seq![' ', 'y']).drop_last() =~= none + digits + seq![' ']);
    assert(plus[0] == '+' && plus.last() == digits.last());
    assert(minus[0] == '-' && minus.last() == digits.last());
    assert(none + plus + none =~= plus);
    assert(none + minus + none =~= minus);
    text::trimming_keeps_the_core(none, plus, none);
    text::trimming_keeps_the_core(none, minus, none);
    text::trimming_keeps_the_core(none, digits, seq![' ']);
    assert(!is_digit(plus[0]) && !is_number(plus));
    assert(!is_digit(minus[0]) && !is_number(minus));
    assert(plus.skip(1) =~= digits);
    assert(minus.skip(1) =~= digits);
    assert(seq!['y'].drop_last() =~= none);
    assert(text::trimmed(none) == none);
}

/// A year is 365.25 days where no start is known: four of them are 1461 days.
pub proof fn years_without_a_start(s: Seq<char>, n: u64)
    requires
        in_years(text::trimmed(s)),
        years(text::trimmed(s)) == Ok::<u64, error::ErrorView>(n),
    ensures
        n <= 500_000_000_000 ==> (validity(s) matches Ok(p) && 4 * p.secs == n * 1461 * 86_400
            && p.nanos == 0),
        validity(s) is Ok,
{
}

/// A period in years has no fraction of a second, and is refused only where its count is;
/// one that is too long for the clock is cut off, and not taken for a shorter one.
pub proof fn years_are_whole(s: Seq<char>, start: u64)
    requires
        in_years(text::trimmed(s)),
    ensures
        validity_from(s, start) is Ok <==> years(text::trimmed(s)) is Ok,
        validity_from(s, start) matches Ok(p) ==> p.nanos == 0,
        years(text::trimmed(s)) matches Ok(n) ==> (calendar::seconds_later(start as nat, n as nat)
            - start > u64::MAX ==> (validity_from(s, start) matches Ok(p) && p.secs == u64::MAX)),
{
}

/// Whether a period is one in years is told by its last letter.
pub proof fn years_end_in_y(s: Seq<char>)
    ensures
        in_years(s) <==> s.len() > 0 && s[s.len() - 1] == 'y',
{
}

/// A number of weeks, of days or of hours is that many times seven days, 24 hours or 3600
/// seconds.
pub proof fn units_have_their_seconds(n: nat)
    ensures
        fixed_seconds(text::decimal_text(n).push('w')) == Some(n * (7 * 24 * 3600)),
        fixed_seconds(text::decimal_text(n).push('d')) == Some(n * (24 * 3600)),
        fixed_seconds(text::decimal_text(n).push('h')) == Some(n * 3600),
{
    number_round_trip(n);
    let digits = text::decimal_text(n);
    assert(digits.push('w').drop_last() =~= digits);
    assert(digits.push('d').drop_last() =~= digits);
    assert(digits.push('h').drop_last() =~= digits);
}

/// A period that is not in years is what is read from the text, to the nanosecond.
pub proof fn plain_periods_are_as_read(s: Seq<char>, start: u64)
    requires
        !in_years(text::trimmed(s)),
    ensures
        validity_from(s, start) is Ok <==> duration(text::trimmed(s)) is Ok,
        validity_from(s, start) matches Ok(p) ==> duration(text::trimmed(s)) == Ok::<
            (u64, u32),
            Seq<char>,
        >((p.secs, p.nanos)),
{
}

/// A time is one that timestamps can stand for if it lies before the year 10000, as far as
/// the clock of the machine reaches.
pub proof fn ordinary_times_have_four_digit_years(t: UnixTime)
    ensures
        is_ordinary(t) <==> t.secs < calendar::days_before_year(10_000) * 86_400
            && openpgp::clock_covers(t.secs as int),
        t.secs < 0x8000_0000 ==> is_ordinary(t),
        usize::BITS >= 64 ==> openpgp::clock_covers(t.secs as int),
{
    calendar::years_count_their_days(10_000);
}

/// A number is cut off only where it is too large.
pub proof fn numbers_are_cut_off_at_the_end(n: nat)
    ensures
        n <= u64::MAX ==> saturated(n) == n,
        n > u64::MAX ==> saturated(n) == u64::MAX,
{
}

proof fn trimmed_part(s: Seq<char>, c: char)
    ensures
        text::trimmed(s).contains(c) ==> s.contains(c),
{
    start_part(s, c);
    end_part(text::trimmed_start(s), c);
}

proof fn start_part(s: Seq<char>, c: char)
    ensures
        text::trimmed_start(s).contains(c) ==> s.contains(c),
    decreases s.len(),
{
    if s.len() > 0 && text::white_space(s[0]) {
        start_part(s.drop_first(), c);
        if s.drop_first().contains(c) {
            let k = choose|k: int| 0 <= k < s.drop_first().len() && s.drop_first()[k] == c;
            assert(s[k + 1] == c);
        }
    }
}

proof fn end_part(s: Seq<char>, c: char)
    ensures
        text::trimmed_end(s).contains(c) ==> s.contains(c),
    decreases s.len(),
{
    if s.len() > 0 && text::white_space(s.last()) {
        end_part(s.drop_last(), c);
        if s.drop_last().contains(c) {
            let k = choose|k: int| 0 <= k < s.drop_last().len() && s.drop_last()[k] == c;
            assert(s[k] == c);
        }
    }
}

/// A period in years can be read, and so can every text without a unit of fractions of
/// seconds and without a point: all weeks, days and hours.
pub proof fn whole_units_are_readable(s: Seq<char>)
    ensures
        in_years(text::trimmed(s)) ==> is_readable(s),
        !s.contains('n') && !s.contains('u') && !s.contains('m') && !s.contains('µ')
            && !s.contains('.') ==> is_readable(s),
{
    trimmed_part(s, 'n');
    trimmed_part(s, 'u');
    trimmed_part(s, 'm');
    trimmed_part(s, 'µ');
    trimmed_part(s, '.');
}

/// Ten to the power `k`.
spec fn pow10(k: nat) -> nat
    decreases k,
{
    if k == 0 {
        1
    } else {
        10 * pow10((k - 1) as nat)
    }
}

proof fn estimates_are_bounded(s: Seq<char>)
    requires
        s.len() <= 9,
    ensures
        estimate(s).number < pow10(s.len()),
        estimate(s).seconds <= s.len() * (pow10(s.len()) * 31_557_600),
        pow10(s.len()) <= 1_000_000_000,
    decreases s.len(),
{
    reveal_with_fuel(pow10, 11);
    if s.len() > 0 {
        let head = s.drop_last();
        let c = s.last();
        estimates_are_bounded(head);
        let e = estimate(head);
        let p = pow10(head.len());
        assert(pow10(s.len()) == 10 * p);
        assert(e.number + 1 <= p);
        assert(most_seconds(e.number, c) <= p * 31_557_600);
        assert(head.len() * (p * 31_557_600) + p * 31_557_600 <= s.len() * ((10 * p) * 31_557_600))
            by (nonlinear_arith)
            requires
                s.len() == head.len() + 1,
        ;
        if is_digit(c) {
            assert((e.number * 10 + (c as u32 - '0' as u32)) < 10 * p);
        }
        assert(s.len() * (pow10(s.len()) * 31_557_600) <= 9 * (1_000_000_000 * 31_557_600))
            by (nonlinear_arith)
            requires
                s.len() <= 9,
                pow10(s.len()) <= 1_000_000_000,
        ;
    }
}

/// Every text of up to nine characters can be read as a period, whatever its units.
pub proof fn short_texts_are_readable(s: Seq<char>)
    requires
        text::trimmed(s).len() <= 9,
    ensures
        is_readable(s),
{
    let t = text::trimmed(s);
    estimates_are_bounded(t);
    assert(t.len() * (pow10(t.len()) * 31_557_600) <= 9 * (1_000_000_000 * 31_557_600))
        by (nonlinear_arith)
        requires
            t.len() <= 9,
            pow10(t.len()) <= 1_000_000_000,
    ;
}

} // verus!
