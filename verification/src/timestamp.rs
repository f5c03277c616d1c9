//! Instants on the UTC time line, within the years that RFC 3339 can write.

use chrono::{DateTime, SecondsFormat, Utc};
use vstd::prelude::*;

verus! {

/// Seconds since the Unix epoch of 0000-01-01T00:00:00Z.
pub const MIN_SECONDS: i64 = -62_167_219_200;

/// Seconds since the Unix epoch of 9999-12-31T23:59:59Z.
pub const MAX_SECONDS: i64 = 253_402_300_799;

/// Nanoseconds in a second.
pub const NANOS_PER_SECOND: u32 = 1_000_000_000;

/// Whether `secs` seconds and `nanos` nanoseconds after the Unix epoch name an instant
/// of a four-digit year.
pub open spec fn in_range(secs: int, nanos: int) -> bool {
    MIN_SECONDS <= secs <= MAX_SECONDS && 0 <= nanos < NANOS_PER_SECOND
}

/// Whether `millis` milliseconds after the Unix epoch name an instant of a four-digit
/// year.
pub open spec fn millis_in_range(millis: int) -> bool {
    MIN_SECONDS * 1000 <= millis <= MAX_SECONDS * 1000 + 999
}

/// The RFC 3339 text, in UTC and with as many sub-second digits as the instant needs
/// (none, three, six or nine), of the instant `secs` seconds and `nanos` nanoseconds
/// after the Unix epoch.
pub uninterp spec fn rfc3339_utc(secs: int, nanos: int) -> Seq<char>;

/// How many digits RFC 3339 text shows of `nanos` nanoseconds: none where there are
/// none, else three, six or nine, as few as show them all.
pub open spec fn subsecond_digits(nanos: int) -> int {
    if nanos == 0 {
        0
    } else if nanos % 1_000_000 == 0 {
        3
    } else if nanos % 1_000 == 0 {
        6
    } else {
        9
    }
}

/// The length of the RFC 3339 text, in UTC, of an instant of a four-digit year with
/// `nanos` nanoseconds: date, `T`, time, the sub-second digits behind a point where
/// there are any, and `Z`.
pub open spec fn rfc3339_len(nanos: int) -> int {
    if subsecond_digits(nanos) == 0 {
        20
    } else {
        21 + subsecond_digits(nanos)
    }
}

/// Formats an instant with `chrono`: `DateTime::<Utc>::from_timestamp`, then
/// `DateTime::to_rfc3339_opts` with `SecondsFormat::AutoSi` and `Z` for the offset.
/// The contract names the text and claims of it what `chrono` shows for the years 0 to
/// 9999: the time is written to the second, the sub-second digits follow where they are
/// not all zero, and `Z` ends the text. Every instant that `requires` admits lies
/// within those years, which `from_timestamp` accepts.
#[verifier::external_body]
fn format_rfc3339(secs: i64, nanos: u32) -> (text: String)
    requires
        in_range(secs as int, nanos as int),
    ensures
        text@ == rfc3339_utc(secs as int, nanos as int),
        text@.len() == rfc3339_len(nanos as int),
        text@.last() == 'Z',
{
    DateTime::<Utc>::from_timestamp(secs, nanos)
        .map(|t| t.to_rfc3339_opts(SecondsFormat::AutoSi, true))
        .unwrap_or_default()
}

/// An instant in UTC, to the nanosecond.
#[derive(Clone, Copy, Debug)]
pub struct Timestamp {
    secs: i64,
    nanos: u32,
}

impl Timestamp {
    #[verifier::type_invariant]
    spec fn valid(self) -> bool {
        in_range(self.secs as int, self.nanos as int)
    }

    /// Whole seconds since the Unix epoch.
    pub closed spec fn spec_seconds(self) -> int {
        self.secs as int
    }

    /// Nanoseconds past the whole second.
    pub closed spec fn spec_subsec_nanos(self) -> int {
        self.nanos as int
    }

    /// The RFC 3339 text of this instant.
    pub open spec fn rendered(self) -> Seq<char> {
        rfc3339_utc(self.spec_seconds(), self.spec_subsec_nanos())
    }

    /// The instant `secs` seconds and `nanos` nanoseconds after the Unix epoch, if it
    /// lies in a four-digit year.
    pub fn new(secs: i64, nanos: u32) -> (r: Option<Timestamp>)
        ensures
            r is Some <==> in_range(secs as int, nanos as int),
            r matches Some(t) ==> t.spec_seconds() == secs && t.spec_subsec_nanos() == nanos,
    {
        if MIN_SECONDS <= secs && secs <= MAX_SECONDS && nanos < NANOS_PER_SECOND {
            Some(Timestamp { secs, nanos })
        } else {
            None
        }
    }

    /// Milliseconds since the Unix epoch, what is left of a millisecond dropped.
    pub open spec fn spec_millis(self) -> int {
        self.spec_seconds() * 1000 + self.spec_subsec_nanos() / 1_000_000
    }

    /// Whole seconds since the Unix epoch.
    pub fn seconds(&self) -> (r: i64)
        ensures
            r == self.spec_seconds(),
            in_range(self.spec_seconds(), self.spec_subsec_nanos()),
    {
        proof {
            use_type_invariant(self);
        }
        self.secs
    }

    /// Nanoseconds past the whole second.
    pub fn subsec_nanos(&self) -> (r: u32)
        ensures
            r == self.spec_subsec_nanos(),
            in_range(self.spec_seconds(), self.spec_subsec_nanos()),
    {
        proof {
            use_type_invariant(self);
        }
        self.nanos
    }

    /// Milliseconds since the Unix epoch, what is left of a millisecond dropped.
    pub fn timestamp_millis(&self) -> (r: i64)
        ensures
            r == self.spec_millis(),
            millis_in_range(r as int),
    {
        proof {
            use_type_invariant(self);
        }
        self.secs * 1000 + (self.nanos / 1_000_000) as i64
    }

    /// The instant `millis` milliseconds after the Unix epoch, if it lies in a
    /// four-digit year.
    pub fn from_millis(millis: i64) -> (r: Option<Timestamp>)
        ensures
            r is Some <==> millis_in_range(millis as int),
            r matches Some(t) ==> {
                &&& t.spec_millis() == millis
                &&& t.spec_subsec_nanos() % 1_000_000 == 0
                &&& in_range(t.spec_seconds(), t.spec_subsec_nanos())
            },
    {
        if millis < MIN_SECONDS * 1000 || millis > MAX_SECONDS * 1000 + 999 {
            return None;
        }
        let (secs, rest) = div_rem_floor(millis, 1000);
        let nanos: u32 = (rest as u32) * 1_000_000;
        assert(millis == secs * 1000 + rest) by {
            vstd::arithmetic::div_mod::lemma_fundamental_div_mod(millis as int, 1000);
        }
        assert(nanos / 1_000_000 == rest && nanos % 1_000_000 == 0) by (nonlinear_arith)
            requires
                nanos == rest * 1_000_000,
                0 <= rest < 1000,
        ;
        Some(Timestamp { secs, nanos })
    }

    /// The Unix epoch.
    pub fn epoch() -> (r: Timestamp)
        ensures
            r.spec_seconds() == 0,
            r.spec_subsec_nanos() == 0,
    {
        Timestamp { secs: 0, nanos: 0 }
    }

    /// Writes the instant as RFC 3339 text in UTC, with as many sub-second digits as it
    /// takes to show them all: none, three, six or nine.
    pub fn to_rfc3339(&self) -> (text: String)
        ensures
            text@ == self.rendered(),
            text@.len() == rfc3339_len(self.spec_subsec_nanos()),
            text@.last() == 'Z',
    {
        proof {
            use_type_invariant(self);
        }
        format_rfc3339(self.secs, self.nanos)
    }
}

/// The quotient and the remainder of `a` by `d`, the remainder never negative.
pub fn div_rem_floor(a: i64, d: i64) -> (r: (i64, i64))
    requires
        d > 0,
    ensures
        r.0 == a as int / d as int,
        r.1 == a as int % d as int,
        0 <= r.1 < d,
{
    proof {
        vstd::arithmetic::div_mod::lemma_fundamental_div_mod(a as int, d as int);
        vstd::arithmetic::div_mod::lemma_mod_bound(a as int, d as int);
    }
    if a >= 0 {
        (a / d, a % d)
    } else {
        let up: i64 = -(a + 1);
        let q: i64 = -(up / d) - 1;
        let rem: i64 = d - 1 - up % d;
        proof {
            vstd::arithmetic::div_mod::lemma_fundamental_div_mod(up as int, d as int);
            vstd::arithmetic::div_mod::lemma_mod_bound(up as int, d as int);
            let uq = up as int / d as int;
            let ur = up as int % d as int;
            assert(a as int == q * d + rem) by (nonlinear_arith)
                requires
                    up == -(a + 1),
                    up == d * uq + ur,
                    q == -uq - 1,
                    rem == d - 1 - ur,
            ;
            vstd::arithmetic::div_mod::lemma_fundamental_div_mod_converse(
                a as int,
                d as int,
                q as int,
                rem as int,
            );
        }
        (q, rem)
    }
}

} // verus!
