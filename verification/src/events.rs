//! Query-log events: what is recorded for each answered query.

use vstd::prelude::*;
use hickory_proto::op::Message;
use crate::blocking::BlockOrigin;
use crate::cache::unix_now;
use crate::dns::{msg_answers, msg_queries};
use crate::response::{first_address_text, first_answer_ip, query_domain, query_domain_spec};
use crate::text::{copy_string, opt_string_view};

verus! {

/// The registrable root of a DNS name under the public suffix list
/// (`addr::parse_dns_name(fqdn)` then `Name::root`); `None` where the name
/// does not parse or has no root.
pub uninterp spec fn psl_root(fqdn: Seq<char>) -> Option<Seq<char>>;

/// The registrable root of a DNS name.
#[verifier::external_body]
fn dns_name_root(fqdn: &str) -> (r: Option<String>)
    ensures
        match r {
            Some(s) => psl_root(fqdn@) == Some(s@),
            None => psl_root(fqdn@) is None,
        },
{
    match addr::parse_dns_name(fqdn) {
        Ok(name) => match name.root() {
            Some(root) => Some(root.to_string()),
            None => None,
        },
        Err(_) => None,
    }
}

/// The registered domain of a name: its root under the public suffix list,
/// or the name itself.
pub open spec fn registered_domain_spec(fqdn: Seq<char>) -> Seq<char> {
    match psl_root(fqdn) {
        Some(r) => r,
        None => fqdn,
    }
}

/// The registered domain of a name (for example `example.co.uk` for `a.b.example.co.uk`).
pub fn registered_domain(fqdn: &str) -> (r: String)
    ensures
        r@ == registered_domain_spec(fqdn@),
{
    match dns_name_root(fqdn) {
        Some(root) => root,
        None => fqdn.to_owned(),
    }
}

/// One answered query, as recorded in the query log.
#[derive(Debug, Clone)]
pub struct QueryEvent {
    pub domain: String,
    pub registered_domain: String,
    pub client_ip: String,
    pub resolved_ip: Option<String>,
    pub blocked: bool,
    pub block_origin: BlockOrigin,
    pub timestamp: i64,
    pub response_time: i64,
    pub device: Option<String>,
}

impl QueryEvent {
    /// An event stamped with the current time (the epoch, 0, where the clock
    /// cannot be read).
    pub fn new(
        domain: String,
        client_ip: String,
        resolved_ip: Option<String>,
        blocked: bool,
        block_origin: BlockOrigin,
        response_time: i64,
        device: Option<String>,
    ) -> (e: QueryEvent)
        ensures
            e.domain@ == domain@,
            e.registered_domain@ == registered_domain_spec(domain@),
            e.client_ip@ == client_ip@,
            opt_string_view(e.resolved_ip) == opt_string_view(resolved_ip),
            e.blocked == blocked,
            e.block_origin == block_origin,
            e.response_time == response_time,
            opt_string_view(e.device) == opt_string_view(device),
            e.timestamp >= 0,
    {
        let registered = registered_domain(domain.as_str());
        let timestamp = match unix_now() {
            Some(t) => t,
            None => 0,
        };
        QueryEvent {
            registered_domain: registered,
            domain,
            client_ip,
            resolved_ip,
            blocked,
            block_origin,
            timestamp,
            response_time,
            device,
        }
    }
}

/// The event recorded for a response: none when it has no question;
/// otherwise its queried domain, and the first answered address unless the
/// query was blocked.
pub fn query_event_for(
    response: &Message,
    client_ip: String,
    blocked: bool,
    block_origin: BlockOrigin,
    response_time: i64,
    device: Option<String>,
) -> (r: Option<QueryEvent>)
    ensures
        match query_domain_spec(msg_queries(*response)) {
            None => r is None,
            Some(d) => r matches Some(e) && {
                &&& e.domain@ == d
                &&& e.registered_domain@ == registered_domain_spec(d)
                &&& e.client_ip@ == client_ip@
                &&& opt_string_view(e.resolved_ip) == if blocked {
                    None
                } else {
                    first_address_text(msg_answers(*response))
                }
                &&& e.blocked == blocked
                &&& e.block_origin == block_origin
                &&& e.response_time == response_time
                &&& opt_string_view(e.device) == opt_string_view(device)
            },
        },
{
    match query_domain(response) {
        None => None,
        Some(domain) => {
            let resolved_ip = if blocked {
                None
            } else {
                first_answer_ip(response)
            };
            Some(
                QueryEvent::new(
                    domain,
                    client_ip,
                    resolved_ip,
                    blocked,
                    block_origin,
                    response_time,
                    device,
                ),
            )
        },
    }
}

/// `s` lower-cased by Unicode rules (`str::to_lowercase`).
pub uninterp spec fn unicode_lower(s: Seq<char>) -> Seq<char>;

/// `s` lower-cased by Unicode rules (`str::to_lowercase`).
#[verifier::external_body]
fn to_lowercase(s: &str) -> (r: String)
    ensures
        r@ == unicode_lower(s@),
{
    s.to_lowercase()
}

/// The first known device id equal to `device_id` once both are lower-cased.
pub fn match_known_device(known: &Vec<String>, device_id: &str) -> (r: Option<String>)
    ensures
        match r {
            Some(id) => exists|i: int|
                0 <= i < known@.len() && known@[i]@ == id@ && unicode_lower(known@[i]@)
                    == unicode_lower(device_id@) && forall|j: int|
                    0 <= j < i ==> unicode_lower(#[trigger] known@[j]@) != unicode_lower(
                        device_id@,
                    ),
            None => forall|j: int|
                0 <= j < known@.len() ==> unicode_lower(#[trigger] known@[j]@) != unicode_lower(
                    device_id@,
                ),
        },
{
    let wanted = to_lowercase(device_id);
    let mut i: usize = 0;
    while i < known.len()
        invariant
            i <= known.len(),
            wanted@ == unicode_lower(device_id@),
            forall|j: int|
                0 <= j < i ==> unicode_lower(#[trigger] known@[j]@) != unicode_lower(device_id@),
        decreases known.len() - i,
    {
        let lower = to_lowercase(known[i].as_str());
        if lower == wanted {
            return Some(copy_string(&known[i]));
        }
        i = i + 1;
    }
    None
}

} // verus!
