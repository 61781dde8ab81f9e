//! Settings of the service, read from optional texts with a default for
//! each.

use vstd::prelude::*;
use vstd::string::StringExecFns;

verus! {

/// The port to listen on where none is given.
pub const DEFAULT_PORT: u16 = 3000;

/// The seconds between two aggregation runs where none are given.
pub const DEFAULT_INTERVAL_SECS: u64 = 60;

/// The requests per minute allowed to one client where none are given.
pub const DEFAULT_RATE_PER_MIN: u32 = 30;

/// The burst of requests allowed to one client where none is given.
pub const DEFAULT_RATE_BURST: u32 = 10;

/// The nanoseconds in a minute.
pub const MINUTE_NANOS: u64 = 60_000_000_000;

/// The settings of the service.
#[derive(Debug)]
pub struct Config {
    pub database_url: String,
    pub host: String,
    pub port: u16,
    pub aggregation_interval_secs: u64,
    pub rate_limit_per_min: u32,
    pub rate_limit_burst: u32,
}

/// Whether a character is a decimal digit.
pub open spec fn is_digit(c: char) -> bool {
    '0' <= c && c <= '9'
}

/// The number that a text of decimal digits writes.
pub open spec fn decimal_value(digits: Seq<char>) -> nat
    decreases digits.len(),
{
    if digits.len() == 0 {
        0
    } else {
        (decimal_value(digits.drop_last()) * 10 + (digits.last() as u32 - '0' as u32)) as nat
    }
}

/// Whether a text holds decimal digits only.
pub open spec fn all_digits(text: Seq<char>) -> bool {
    forall|i: int| 0 <= i < text.len() ==> is_digit(#[trigger] text[i])
}

/// A text without the plus sign that it may begin with.
pub open spec fn without_plus(text: Seq<char>) -> Seq<char> {
    if text.len() > 0 && text[0] == '+' {
        text.skip(1)
    } else {
        text
    }
}

/// The number that a text writes as an unsigned integer of at most `max`: an
/// optional plus sign, then one or more decimal digits and nothing else.
/// `None` for any other text and for a number greater than `max`.
pub open spec fn parsed_unsigned(text: Seq<char>, max: nat) -> Option<nat> {
    let digits = without_plus(text);
    if digits.len() == 0 || !all_digits(digits) || decimal_value(digits) > max {
        None
    } else {
        Some(decimal_value(digits))
    }
}

/// `str::parse::<u16>` of the standard library: the number that the text
/// writes, as [`parsed_unsigned`] gives it, or `None` where it writes none.
#[verifier::external_body]
fn parse_u16(text: &str) -> (r: Option<u16>)
    ensures
        r is Some <==> parsed_unsigned(text@, u16::MAX as nat) is Some,
        r is Some ==> r->0 == parsed_unsigned(text@, u16::MAX as nat)->0,
{
    text.parse::<u16>().ok()
}

/// `str::parse::<u32>` of the standard library: the number that the text
/// writes, as [`parsed_unsigned`] gives it, or `None` where it writes none.
#[verifier::external_body]
fn parse_u32(text: &str) -> (r: Option<u32>)
    ensures
        r is Some <==> parsed_unsigned(text@, u32::MAX as nat) is Some,
        r is Some ==> r->0 == parsed_unsigned(text@, u32::MAX as nat)->0,
{
    text.parse::<u32>().ok()
}

/// `str::parse::<u64>` of the standard library: the number that the text
/// writes, as [`parsed_unsigned`] gives it, or `None` where it writes none.
#[verifier::external_body]
fn parse_u64(text: &str) -> (r: Option<u64>)
    ensures
        r is Some <==> parsed_unsigned(text@, u64::MAX as nat) is Some,
        r is Some ==> r->0 == parsed_unsigned(text@, u64::MAX as nat)->0,
{
    text.parse::<u64>().ok()
}

/// The number that an optional text gives: the number it writes, or
/// `default` where the text is absent or writes no number of at most `max`.
pub open spec fn number_or(text: Option<Seq<char>>, max: nat, default: nat) -> nat {
    match text {
        Some(t) => match parsed_unsigned(t, max) {
            Some(n) => n,
            None => default,
        },
        None => default,
    }
}

/// The text that an optional text gives: itself, or `default` where it is
/// absent.
pub open spec fn text_or(text: Option<Seq<char>>, default: Seq<char>) -> Seq<char> {
    match text {
        Some(t) => t,
        None => default,
    }
}

/// The time between two requests that a rate of `per_min` requests per
/// minute allows, in whole nanoseconds; a minute where the rate is zero.
pub open spec fn period_nanos(per_min: u32) -> nat {
    if per_min == 0 {
        MINUTE_NANOS as nat
    } else {
        (MINUTE_NANOS as nat) / (per_min as nat)
    }
}

impl Config {
    /// The settings that the given texts stand for. Each text is the value
    /// of one variable of the environment, absent where the variable is not
    /// set; an absent text, and a number that cannot be read, give way to the
    /// default.
    pub fn from_env(
        database_url: Option<String>,
        host: Option<String>,
        port: Option<String>,
        aggregation_interval: Option<String>,
        rate_limit_per_min: Option<String>,
        rate_limit_burst: Option<String>,
    ) -> (c: Config)
        ensures
            c.database_url@ == text_or(crate::event::text_of(database_url), "sqlite:alembic.db"@),
            c.host@ == text_or(crate::event::text_of(host), "0.0.0.0"@),
            c.port == number_or(
                crate::event::text_of(port),
                u16::MAX as nat,
                DEFAULT_PORT as nat,
            ),
            c.aggregation_interval_secs == number_or(
                crate::event::text_of(aggregation_interval),
                u64::MAX as nat,
                DEFAULT_INTERVAL_SECS as nat,
            ),
            c.rate_limit_per_min == number_or(
                crate::event::text_of(rate_limit_per_min),
                u32::MAX as nat,
                DEFAULT_RATE_PER_MIN as nat,
            ),
            c.rate_limit_burst == number_or(
                crate::event::text_of(rate_limit_burst),
                u32::MAX as nat,
                DEFAULT_RATE_BURST as nat,
            ),
    {
        let database_url = match database_url {
            Some(t) => t,
            None => String::from_str("sqlite:alembic.db"),
        };
        let host = match host {
            Some(t) => t,
            None => String::from_str("0.0.0.0"),
        };
        let port = match &port {
            Some(t) => match parse_u16(t.as_str()) {
                Some(n) => n,
                None => DEFAULT_PORT,
            },
            None => DEFAULT_PORT,
        };
        let aggregation_interval_secs = match &aggregation_interval {
            Some(t) => match parse_u64(t.as_str()) {
                Some(n) => n,
                None => DEFAULT_INTERVAL_SECS,
            },
            None => DEFAULT_INTERVAL_SECS,
        };
        let rate_limit_per_min = match &rate_limit_per_min {
            Some(t) => match parse_u32(t.as_str()) {
                Some(n) => n,
                None => DEFAULT_RATE_PER_MIN,
            },
            None => DEFAULT_RATE_PER_MIN,
        };
        let rate_limit_burst = match &rate_limit_burst {
            Some(t) => match parse_u32(t.as_str()) {
                Some(n) => n,
                None => DEFAULT_RATE_BURST,
            },
            None => DEFAULT_RATE_BURST,
        };
        Config {
            database_url,
            host,
            port,
            aggregation_interval_secs,
            rate_limit_per_min,
            rate_limit_burst,
        }
    }

    /// The time between two requests that the rate limit allows, in whole
    /// nanoseconds.
    pub fn rate_limit_period(&self) -> (nanos: u64)
        ensures
            nanos == period_nanos(self.rate_limit_per_min),
            0 < nanos <= MINUTE_NANOS,
    {
        if self.rate_limit_per_min == 0 {
            MINUTE_NANOS
        } else {
            let n: u64 = self.rate_limit_per_min as u64;
            assert(0 < 60_000_000_000u64 / n <= 60_000_000_000) by (nonlinear_arith)
                requires
                    0 < n <= 0xffff_ffff,
            ;
            MINUTE_NANOS / n
        }
    }
}

} // verus!
