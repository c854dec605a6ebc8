//! The runtime's configuration: the queue client's settings and the poller count.
use vstd::prelude::*;

verus! {

#[verifier::external_type_specification]
#[verifier::external_body]
pub struct ExSdkConfig(aws_config::SdkConfig);

/// Messages asked for by one receive.
pub const DEFAULT_MAX_NUMBER_OF_MESSAGES: i32 = 10;

/// Seconds one receive long-polls.
pub const DEFAULT_WAIT_TIME_SECONDS: i32 = 20;

/// Pollers run when no count is configured, or the configured one does not parse.
pub const DEFAULT_POLLER_COUNT: usize = 1;

/// The queue client's settings: the shared AWS configuration, the queue's URL,
/// and the receive limits.
pub struct SqsClientConfig {
    pub config: aws_config::SdkConfig,
    pub url: String,
    pub max_number_of_messages: i32,
    pub wait_time_seconds: i32,
}

impl SqsClientConfig {
    /// Settings for the queue at `url`, with the default receive limits.
    pub fn new(config: aws_config::SdkConfig, url: String) -> (c: SqsClientConfig)
        ensures
            c.config == config,
            c.url@ == url@,
            c.max_number_of_messages == DEFAULT_MAX_NUMBER_OF_MESSAGES,
            c.wait_time_seconds == DEFAULT_WAIT_TIME_SECONDS,
    {
        SqsClientConfig {
            config,
            url,
            max_number_of_messages: DEFAULT_MAX_NUMBER_OF_MESSAGES,
            wait_time_seconds: DEFAULT_WAIT_TIME_SECONDS,
        }
    }
}

pub open spec fn is_digit(c: char) -> bool {
    48 <= (c as u32) && (c as u32) <= 57
}

pub open spec fn all_digits(s: Seq<char>) -> bool {
    forall|i: int| 0 <= i < s.len() ==> is_digit(#[trigger] s[i])
}

/// The value of a string of decimal digits.
pub open spec fn digits_value(s: Seq<char>) -> nat
    decreases s.len(),
{
    if s.len() == 0 {
        0
    } else {
        digits_value(s.drop_last()) * 10 + ((s.last() as u32) - 48) as nat
    }
}

/// The digits of an unsigned decimal: `s` without one leading `+`.
pub open spec fn unsigned_digits(s: Seq<char>) -> Seq<char> {
    if s.len() > 0 && s[0] == '+' {
        s.drop_first()
    } else {
        s
    }
}

/// What `s` reads as a `usize`: an optional `+` then one or more digits, whose
/// value fits; else nothing.
pub open spec fn parsed_usize(s: Seq<char>) -> Option<usize> {
    let d = unsigned_digits(s);
    if d.len() > 0 && all_digits(d) && digits_value(d) <= usize::MAX {
        Some(digits_value(d) as usize)
    } else {
        None
    }
}

/// Relies on `<usize as FromStr>::from_str` (through `str::parse`): for an
/// unsigned type it accepts an optional `+` followed by digits only, and fails on
/// an empty string, a lone sign, a `-`, any other character, or a value beyond
/// `usize::MAX`.
#[verifier::external_body]
fn parse_usize(s: &str) -> (r: Option<usize>)
    ensures
        r == parsed_usize(s@),
{
    s.parse::<usize>().ok()
}

/// `n` is the poller count for `setting`: the count it spells, else the default.
pub open spec fn poller_count_of(setting: Option<Seq<char>>, n: usize) -> bool {
    match setting {
        None => n == DEFAULT_POLLER_COUNT,
        Some(s) => match parsed_usize(s) {
            Some(v) => n == v,
            None => n == DEFAULT_POLLER_COUNT,
        },
    }
}

/// The view of an optional setting.
pub open spec fn setting_view(setting: Option<&str>) -> Option<Seq<char>> {
    match setting {
        None => None,
        Some(s) => Some(s@),
    }
}

/// The poller count from its configured setting: a count that parses, else the
/// default.
pub fn poller_count_from(setting: Option<&str>) -> (n: usize)
    ensures
        poller_count_of(setting_view(setting), n),
{
    match setting {
        None => DEFAULT_POLLER_COUNT,
        Some(s) => match parse_usize(s) {
            Some(n) => n,
            None => DEFAULT_POLLER_COUNT,
        },
    }
}

} // verus!
