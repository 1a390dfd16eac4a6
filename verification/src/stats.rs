//! The dashboard's statistics: the rows it shows, the time windows and
//! pages it asks the query log for, and the row written for each answered
//! query.

use vstd::prelude::*;
use crate::events::{match_known_device, unicode_lower, QueryEvent};
use crate::text::{concat_str, copy_string, opt_string_view};

verus! {

/// Queries and blocked queries in one hour of today (`hour` is `HH:00`).
#[derive(Debug, Clone)]
pub struct HourStat {
    pub hour: String,
    pub total: i64,
    pub blocked: i64,
}

/// Queries and blocked queries on one day (`day` is `YYYY-MM-DD`).
#[derive(Debug, Clone)]
pub struct DayStat {
    pub day: String,
    pub total: i64,
    pub blocked: i64,
}

/// A blocked query: its domain, the client, and when (Unix seconds).
#[derive(Debug, Clone)]
pub struct BlockedEntry {
    pub domain: String,
    pub client_ip: String,
    pub timestamp: i64,
}

/// Queries and blocked queries to addresses of one country.
#[derive(Debug, Clone)]
pub struct CountryStat {
    pub country_code: String,
    pub total: i64,
    pub blocked: i64,
}

/// Queries and blocked queries to addresses of one company.
#[derive(Debug, Clone)]
pub struct PopularStat {
    pub label: String,
    pub total: i64,
    pub blocked: i64,
}

/// What the geolocation databases know of an address.
#[derive(Debug, Clone)]
pub struct MMDBLookupResult {
    pub country: Option<String>,
    pub asn_org: Option<String>,
}

/// A geolocation database: its name and where it is stored.
#[derive(Debug, Clone)]
pub struct MmdbFile {
    pub name: String,
    pub path: String,
}

/// The geolocation databases: autonomous systems and countries.
#[derive(Debug, Clone)]
pub struct MMDBSPaths {
    pub asn: MmdbFile,
    pub country: MmdbFile,
}

/// An event pushed to the dashboard's live view.
#[derive(Debug, Clone, Copy, PartialEq, Eq, Structural)]
pub enum WsEvent {
    /// A DNS request was answered.
    DNSRequest,
}

/// Seconds in a day.
pub const DAY_SECS: i64 = 86400;

/// Midnight (UTC) of the day holding `now`, in Unix seconds.
pub fn start_of_day(now: i64) -> (t: i64)
    requires
        now >= i64::MIN + DAY_SECS,
    ensures
        t == now - now % DAY_SECS,
{
    let rem: i64 = if now >= 0 {
        now % DAY_SECS
    } else {
        let a: i64 = -(now + 1);
        let s: i64 = a % DAY_SECS;
        assert(now % DAY_SECS == DAY_SECS - 1 - s) by (nonlinear_arith)
            requires
                a == -(now + 1),
                a >= 0,
                s == a % DAY_SECS,
                DAY_SECS == 86400,
        {
            let q = a / DAY_SECS;
            assert(a == q * DAY_SECS + s);
            assert(now == (-(q + 1)) * DAY_SECS + (DAY_SECS - 1 - s));
        }
        DAY_SECS - 1 - s
    };
    assert(0 <= rem < DAY_SECS);
    now - rem
}

/// Law: the start of a day is a midnight, at or before `now` and less than
/// a day before it.
pub proof fn law_start_of_day(now: int)
    ensures
        (now - now % (DAY_SECS as int)) % (DAY_SECS as int) == 0,
        now - now % (DAY_SECS as int) <= now < now - now % (DAY_SECS as int) + DAY_SECS,
{
    let d = DAY_SECS as int;
    let q = now / d;
    let r = now % d;
    assert(q * d + r == now && 0 <= r < d) by (nonlinear_arith)
        requires
            d == 86400,
            q == now / d,
            r == now % d,
    ;
    assert((q * d) % d == 0) by (nonlinear_arith)
        requires
            d == 86400,
    ;
}

/// The start of the window covering the last `days` days before `now`.
pub fn days_ago(now: i64, days: u32) -> (t: i64)
    requires
        now - days * DAY_SECS >= i64::MIN,
    ensures
        t == now - days * DAY_SECS,
{
    let span: i64 = (days as i64) * DAY_SECS;
    now - span
}

/// The number of query-log rows before page `page` (pages count from one).
pub fn query_log_offset(page: u32, per_page: u32) -> (n: i64)
    requires
        page >= 1,
        (page - 1) * per_page <= u32::MAX,
    ensures
        n == (page - 1) * per_page,
{
    let skipped: u32 = (page - 1) * per_page;
    skipped as i64
}

/// The SQL `LIKE` pattern matching domains that contain `domain`.
pub fn like_pattern(domain: &str) -> (p: String)
    ensures
        p@ == "%"@ + domain@ + "%"@,
{
    let a = concat_str("%", domain);
    concat_str(a.as_str(), "%")
}

/// Whether the address of a query is looked up before it is logged: it was
/// blocked, so no upstream answer gave one.
pub fn needs_address_lookup(event: &QueryEvent) -> (b: bool)
    ensures
        b == (event.resolved_ip is None && event.blocked),
{
    event.resolved_ip.is_none() && event.blocked
}

/// The country code and company name an address lookup gives; none where
/// no address was known or the databases know nothing of it.
pub fn geo_of(lookup: Option<MMDBLookupResult>) -> (r: (Option<String>, Option<String>))
    ensures
        match lookup {
            Some(g) => opt_string_view(r.0) == opt_string_view(g.country) && opt_string_view(r.1) == opt_string_view(
                g.asn_org,
            ),
            None => r.0 is None && r.1 is None,
        },
{
    match lookup {
        Some(g) => (g.country, g.asn_org),
        None => (None, None),
    }
}

/// The values written to the query log and the domain statistics for one query.
#[derive(Debug, Clone)]
pub struct QueryLogInsert {
    pub domain: String,
    pub registered_domain: String,
    pub client_ip: String,
    pub blocked: bool,
    pub block_origin: &'static str,
    pub timestamp: i64,
    pub response_time: i64,
    pub device_id: Option<String>,
    pub country_code: Option<String>,
    pub company_name: Option<String>,
    /// Added to the domain's blocked count: 1 for a blocked query, else 0.
    pub hits_blocked: i64,
}

/// The row logged for a query: the event's fields, its transport's label,
/// the known device whose id matches the event's device (ignoring case),
/// and the geolocation found for its address.
pub fn query_log_insert(
    event: &QueryEvent,
    known_devices: &Vec<String>,
    geo: Option<MMDBLookupResult>,
) -> (r: QueryLogInsert)
    ensures
        r.domain@ == event.domain@,
        r.registered_domain@ == event.registered_domain@,
        r.client_ip@ == event.client_ip@,
        r.blocked == event.blocked,
        r.block_origin@ == match event.block_origin {
            crate::blocking::BlockOrigin::Plain => "plain"@,
            crate::blocking::BlockOrigin::DoH => "doh"@,
            crate::blocking::BlockOrigin::DoT => "dot"@,
        },
        r.timestamp == event.timestamp,
        r.response_time == event.response_time,
        r.hits_blocked == if event.blocked {
            1i64
        } else {
            0i64
        },
        match geo {
            Some(g) => opt_string_view(r.country_code) == opt_string_view(g.country) && opt_string_view(r.company_name)
                == opt_string_view(g.asn_org),
            None => r.country_code is None && r.company_name is None,
        },
        match event.device {
            None => r.device_id is None,
            Some(d) => match r.device_id {
                Some(id) => exists|i: int|
                    0 <= i < known_devices@.len() && known_devices@[i]@ == id@ && unicode_lower(
                        known_devices@[i]@,
                    ) == unicode_lower(d@) && forall|j: int|
                        0 <= j < i ==> unicode_lower(#[trigger] known_devices@[j]@)
                            != unicode_lower(d@),
                None => forall|j: int|
                    0 <= j < known_devices@.len() ==> unicode_lower(#[trigger] known_devices@[j]@)
                        != unicode_lower(d@),
            },
        },
{
    let device_id = match &event.device {
        Some(d) => match_known_device(known_devices, d.as_str()),
        None => None,
    };
    let (country_code, company_name) = geo_of(geo);
    QueryLogInsert {
        domain: copy_string(&event.domain),
        registered_domain: copy_string(&event.registered_domain),
        client_ip: copy_string(&event.client_ip),
        blocked: event.blocked,
        block_origin: event.block_origin.label(),
        timestamp: event.timestamp,
        response_time: event.response_time,
        device_id,
        country_code,
        company_name,
        hits_blocked: if event.blocked {
            1
        } else {
            0
        },
    }
}

/// Whether a geolocation database is downloaded again: when its file's age
/// is unknown (no file, or no modification time), or it is a day old or older.
pub fn refresh_due(age_secs: Option<u64>) -> (b: bool)
    ensures
        b == match age_secs {
            None => true,
            Some(a) => a >= DAY_SECS,
        },
{
    match age_secs {
        None => true,
        Some(a) => a >= 86400,
    }
}

} // verus!
