//! Limits of the name server, and what is sent where they are met.

use vstd::prelude::*;

use crate::dns::handler::law_failure_by_bytes;
use crate::dns::handler::servfail;
use crate::dns::handler::servfail_bytes;
use crate::dns::handler::tells_of_failure;
use crate::numbers::decimal_text;
use crate::numbers::law_written_number_reads_back;
use crate::numbers::parse_u64;
use crate::numbers::parse_usize;
use crate::numbers::unsigned_text;

verus! {

/// How many queries are processed at once if nothing else is configured.
pub const DEFAULT_MAX_CONCURRENT_QUERIES: usize = 256;

/// How many seconds a query may take if nothing else is configured.
pub const DEFAULT_QUERY_TIMEOUT_SECS: u64 = 5;

/// How many dropped queries share one log line.
pub const SATURATION_LOG_INTERVAL: u64 = 100;

/// Where the server listens if nothing else is configured.
pub const DEFAULT_LISTEN_ADDR: &'static str = "0.0.0.0:53";

/// The number that a setting stands for, or a default if it is not set, not a number, or
/// greater than `max`.
pub open spec fn setting_or(value: Option<&str>, max: nat, default: nat) -> nat {
    match value {
        Some(text) => match unsigned_text(text@) {
            Some(n) => if n <= max {
                n
            } else {
                default
            },
            None => default,
        },
        None => default,
    }
}

/// How many queries are processed at once.
pub fn max_concurrent_queries(setting: Option<&str>) -> (n: usize)
    ensures
        n == setting_or(setting, usize::MAX as nat, DEFAULT_MAX_CONCURRENT_QUERIES as nat),
{
    match setting {
        Some(text) => match parse_usize(text) {
            Some(n) => n,
            None => DEFAULT_MAX_CONCURRENT_QUERIES,
        },
        None => DEFAULT_MAX_CONCURRENT_QUERIES,
    }
}

/// How many seconds a query may take.
pub fn query_timeout_secs(setting: Option<&str>) -> (n: u64)
    ensures
        n == setting_or(setting, u64::MAX as nat, DEFAULT_QUERY_TIMEOUT_SECS as nat),
{
    match setting {
        Some(text) => match parse_u64(text) {
            Some(n) => n,
            None => DEFAULT_QUERY_TIMEOUT_SECS,
        },
        None => DEFAULT_QUERY_TIMEOUT_SECS,
    }
}

/// What came of serving a query.
pub enum Served {
    /// These bytes.
    Response(Vec<u8>),
    /// Nothing: as many queries as allowed were being processed already.
    Saturated,
    /// An error.
    Failed,
    /// Nothing in time.
    TimedOut,
}

/// Decide what is sent back for a query: the response if there is one, and in every other
/// case a response that tells of a server failure, so that the sender need not wait.
///
/// `None`, and nothing is sent, only where a server failure cannot be told of.
pub fn reply(query_bytes: &[u8], served: Served) -> (sent: Option<Vec<u8>>)
    ensures
        match served {
            Served::Response(bytes) => sent == Some(bytes),
            _ => {
                &&& sent is Some <==> servfail_bytes(query_bytes@) is Some
                &&& sent matches Some(bytes) ==> servfail_bytes(query_bytes@) == Some(bytes@)
                &&& sent matches Some(bytes) ==> tells_of_failure(bytes@, query_bytes@)
            },
        },
{
    match served {
        Served::Response(bytes) => Some(bytes),
        Served::Saturated => servfail(query_bytes),
        Served::Failed => servfail(query_bytes),
        Served::TimedOut => servfail(query_bytes),
    }
}

/// The dropped queries that are logged, by their count.
pub open spec fn is_logged_drop(count: int) -> bool {
    count % SATURATION_LOG_INTERVAL as int == 1
}

/// Whether the drop that makes `count` drops is logged.
pub fn logs_drop(count: u64) -> (yes: bool)
    ensures
        yes == is_logged_drop(count as int),
{
    count % SATURATION_LOG_INTERVAL == 1
}

/// The first drop is logged, and no two drops less than an interval apart are.
pub proof fn law_drop_logging_is_sparse(a: int, b: int)
    requires
        is_logged_drop(a),
        is_logged_drop(b),
        a < b,
    ensures
        is_logged_drop(1),
        b - a >= SATURATION_LOG_INTERVAL,
{
}

/// The logged drops are the first one and every hundredth from there.
pub proof fn law_every_hundredth_drop_is_logged(count: int)
    ensures
        is_logged_drop(count) <==> exists|k: int| count == #[trigger] (100 * k) + 1,
{
    if is_logged_drop(count) {
        assert(count == 100 * (count / 100) + 1);
    }
}

/// A setting that writes a number within bounds stands for that number, with or without a
/// plus sign. Every other setting, and none, stands for the default.
pub proof fn law_setting_says_its_number(value: &str, n: nat, max: nat, default: nat)
    ensures
        value@ == decimal_text(n) ==> setting_or(Some(value), max, default) == if n <= max {
            n
        } else {
            default
        },
        value@ == seq!['+'] + decimal_text(n) ==> setting_or(Some(value), max, default) == if n
            <= max {
            n
        } else {
            default
        },
        unsigned_text(value@) is None ==> setting_or(Some(value), max, default) == default,
        setting_or(None, max, default) == default,
{
    law_written_number_reads_back(n);
}

/// How the settings are read: a number that is written in full counts, up to the largest that
/// fits, and without a setting there are 256 queries at once and 5 seconds for each.
pub proof fn law_settings_by_numbers(
    text: &str,
    n: nat,
    limit: usize,
    secs: u64,
    default_limit: usize,
    default_secs: u64,
)
    requires
        text@ == decimal_text(n),
        call_ensures(max_concurrent_queries, (Some(text),), limit),
        call_ensures(query_timeout_secs, (Some(text),), secs),
        call_ensures(max_concurrent_queries, (None::<&str>,), default_limit),
        call_ensures(query_timeout_secs, (None::<&str>,), default_secs),
    ensures
        limit == if n <= usize::MAX {
            n
        } else {
            256
        },
        secs == if n <= u64::MAX {
            n
        } else {
            5
        },
        default_limit == 256,
        default_secs == 5,
{
    law_written_number_reads_back(n);
}

/// A response is sent as it is. Whatever else serving came to, what is sent carries the query's
/// id and questions' number, with code 2 and no answer.
pub proof fn law_reply_by_bytes(query: &[u8], served: Served, sent: Option<Vec<u8>>)
    requires
        call_ensures(reply, (query, served), sent),
    ensures
        served matches Served::Response(bytes) ==> sent == Some(bytes),
        !(served is Response) && sent is Some ==> {
            let b = sent->0@;
            &&& b.len() >= 12 && query@.len() >= 12
            &&& b[0] == query@[0] && b[1] == query@[1]
            &&& b[2] >= 128 && b[3] >= 128 && b[3] % 16 == 2
            &&& b[4] == query@[4] && b[5] == query@[5] && b[6] == 0 && b[7] == 0
        },
{
    if !(served is Response) && sent is Some {
        law_failure_by_bytes(sent->0@, query@);
    }
}

} // verus!
