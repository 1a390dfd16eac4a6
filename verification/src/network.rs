//! Putting the resolver in the system's path: the DNS servers written for
//! each network adapter, the DNS-over-HTTPS endpoint a device is given, the
//! firewall filters that keep other resolvers out, and the framing of
//! DNS-over-TLS and DNS-over-HTTPS requests.

use vstd::prelude::*;
use base64::Engine;
use crate::config::{ids_view, IpAddress};
use crate::lists::{lemma_push_contains, lemma_remove_all, remove_all};
use crate::text::{concat_str, copy_string, str_eq};

verus! {

/// Transport protocol of a firewall opening.
#[derive(Debug, Clone, Copy, PartialEq, Eq, Structural)]
pub enum Protocol {
    UDP,
    TCP,
}

/// The resolver added after the local one when none is configured.
pub open spec fn default_secondary() -> Seq<char> {
    "8.8.8.8"@
}

/// The DNS servers written for an adapter: the local resolver first, then
/// the adapter's other servers in order, then the secondary resolver unless
/// it is already among them.
pub open spec fn adapter_servers_spec(
    local: Seq<char>,
    secondary: Seq<char>,
    existing: Seq<Seq<char>>,
) -> Seq<Seq<char>> {
    let base = seq![local] + remove_all(existing, local);
    if base.contains(secondary) {
        base
    } else {
        base.push(secondary)
    }
}

/// The address of the secondary resolver: the configured one, or `8.8.8.8`.
pub fn secondary_address(secondary: &Option<String>) -> (s: String)
    ensures
        s@ == match secondary {
            Some(t) => t@,
            None => default_secondary(),
        },
{
    match secondary {
        Some(t) => copy_string(t),
        None => "8.8.8.8".to_owned(),
    }
}

/// Whether `v` holds `s`.
fn holds(v: &Vec<String>, s: &str) -> (b: bool)
    ensures
        b == ids_view(v@).contains(s@),
{
    let mut i: usize = 0;
    while i < v.len()
        invariant
            i <= v@.len(),
            forall|k: int| 0 <= k < i ==> (#[trigger] v@[k])@ != s@,
        decreases v.len() - i,
    {
        if str_eq(v[i].as_str(), s) {
            assert(ids_view(v@)[i as int] == s@);
            return true;
        }
        i = i + 1;
    }
    assert forall|k: int| 0 <= k < ids_view(v@).len() implies (#[trigger] ids_view(v@)[k]) != s@ by {
        assert(ids_view(v@)[k] == v@[k]@);
    }
    false
}

/// The DNS servers written for an adapter whose servers are `existing`.
pub fn adapter_servers(local: &str, secondary: &str, existing: &Vec<String>) -> (r: Vec<String>)
    ensures
        ids_view(r@) == adapter_servers_spec(local@, secondary@, ids_view(existing@)),
{
    let ghost current = ids_view(existing@);
    let mut servers: Vec<String> = Vec::new();
    servers.push(local.to_owned());
    assert(ids_view(servers@) =~= seq![local@] + remove_all(current.take(0), local@));
    let mut i: usize = 0;
    while i < existing.len()
        invariant
            i <= existing@.len(),
            current == ids_view(existing@),
            ids_view(servers@) == seq![local@] + remove_all(current.take(i as int), local@),
        decreases existing.len() - i,
    {
        proof {
            assert(current.take(i + 1).drop_last() =~= current.take(i as int));
            assert(current.take(i + 1).last() == existing@[i as int]@);
        }
        if !str_eq(existing[i].as_str(), local) {
            let ghost before = servers@;
            let s = copy_string(&existing[i]);
            servers.push(s);
            assert(ids_view(servers@) =~= ids_view(before).push(s@));
        }
        i = i + 1;
    }
    assert(current.take(existing.len() as int) =~= current);
    if !holds(&servers, secondary) {
        let ghost before = servers@;
        servers.push(secondary.to_owned());
        assert(ids_view(servers@) =~= ids_view(before).push(secondary@));
    }
    servers
}

/// Law: the servers written for an adapter start with the local resolver,
/// hold it nowhere else, hold the secondary resolver, and keep every other
/// server the adapter had.
pub proof fn law_adapter_servers(local: Seq<char>, secondary: Seq<char>, existing: Seq<Seq<char>>)
    ensures
        adapter_servers_spec(local, secondary, existing).len() > 0,
        adapter_servers_spec(local, secondary, existing)[0] == local,
        forall|j: int|
            0 < j < adapter_servers_spec(local, secondary, existing).len()
                ==> #[trigger] adapter_servers_spec(local, secondary, existing)[j] != local,
        adapter_servers_spec(local, secondary, existing).contains(secondary),
        forall|x: Seq<char>|
            existing.contains(x) && x != local ==> #[trigger] adapter_servers_spec(
                local,
                secondary,
                existing,
            ).contains(x),
{
    lemma_remove_all(existing, local);
    let rest = remove_all(existing, local);
    let base = seq![local] + rest;
    let r = adapter_servers_spec(local, secondary, existing);
    assert(base[0] == local);
    assert forall|j: int| 0 < j < base.len() implies #[trigger] base[j] != local by {
        assert(base[j] == rest[j - 1]);
        if rest[j - 1] == local {
            assert(rest.contains(local));
        }
    }
    assert forall|x: Seq<char>| rest.contains(x) implies #[trigger] base.contains(x) by {
        let k = choose|k: int| 0 <= k < rest.len() && rest[k] == x;
        assert(base[k + 1] == x);
    }
    if base.contains(secondary) {
        assert(r == base);
    } else {
        assert(r == base.push(secondary));
        lemma_push_contains(base, secondary, secondary);
        assert forall|x: Seq<char>| base.contains(x) implies #[trigger] r.contains(x) by {
            lemma_push_contains(base, secondary, x);
        }
        assert forall|j: int| 0 < j < r.len() implies #[trigger] r[j] != local by {
            if j < base.len() {
                assert(r[j] == base[j]);
            } else {
                assert(r[j] == secondary);
                assert(base.contains(local)) by {
                    assert(base[0] == local);
                }
            }
        }
    }
}

/// Removing `id` from a sequence that starts with `id` removes that first
/// element too.
proof fn lemma_remove_all_after(s: Seq<Seq<char>>, id: Seq<char>)
    ensures
        remove_all(seq![id] + s, id) == remove_all(s, id),
    decreases s.len(),
{
    let x = seq![id] + s;
    if s.len() == 0 {
        assert(x.drop_last() =~= Seq::<Seq<char>>::empty());
        assert(remove_all(x.drop_last(), id) == x.drop_last());
        assert(x.last() == id);
        assert(remove_all(x, id) == remove_all(x.drop_last(), id));
        assert(remove_all(s, id) == s);
    } else {
        lemma_remove_all_after(s.drop_last(), id);
        assert(x.drop_last() =~= seq![id] + s.drop_last());
        assert(x.last() == s.last());
        assert(remove_all(x.drop_last(), id) == remove_all(s.drop_last(), id));
    }
}

/// Law: writing the servers again over what the override wrote gives the
/// same list: running the override twice stacks no second local or
/// secondary resolver.
pub proof fn law_override_is_idempotent(local: Seq<char>, secondary: Seq<char>, existing: Seq<Seq<char>>)
    ensures
        adapter_servers_spec(local, secondary, adapter_servers_spec(local, secondary, existing))
            == adapter_servers_spec(local, secondary, existing),
{
    lemma_remove_all(existing, local);
    let rest = remove_all(existing, local);
    let base = seq![local] + rest;
    let r = adapter_servers_spec(local, secondary, existing);
    assert(base[0] == local);
    if base.contains(secondary) {
        assert(r == base);
        lemma_remove_all_after(rest, local);
        lemma_remove_all(rest, local);
        assert(remove_all(r, local) == rest);
    } else {
        assert(secondary != local);
        let tail = rest.push(secondary);
        assert(r =~= seq![local] + tail);
        lemma_push_contains(rest, secondary, local);
        lemma_remove_all_after(tail, local);
        lemma_remove_all(tail, local);
        assert(remove_all(r, local) == tail);
        lemma_push_contains(tail, secondary, secondary);
        assert((seq![local] + tail).contains(secondary)) by {
            assert((seq![local] + tail)[tail.len() as int] == secondary);
        }
    }
}

/// The servers as a PowerShell list: each in double quotes, separated by commas.
pub open spec fn quoted_list(servers: Seq<Seq<char>>) -> Seq<char>
    decreases servers.len(),
{
    if servers.len() == 0 {
        seq![]
    } else if servers.len() == 1 {
        "\""@ + servers[0] + "\""@
    } else {
        quoted_list(servers.drop_last()) + ","@ + "\""@ + servers.last() + "\""@
    }
}

/// The servers as a PowerShell list.
pub fn servers_ps(servers: &Vec<String>) -> (s: String)
    ensures
        s@ == quoted_list(ids_view(servers@)),
{
    let ghost v = ids_view(servers@);
    let mut out = String::new();
    let mut i: usize = 0;
    while i < servers.len()
        invariant
            i <= servers@.len(),
            v == ids_view(servers@),
            out@ == quoted_list(v.take(i as int)),
        decreases servers.len() - i,
    {
        proof {
            assert(v.take(i + 1).drop_last() =~= v.take(i as int));
            assert(v.take(i + 1).last() == servers@[i as int]@);
        }
        let sep = if i == 0 {
            copy_string(&out)
        } else {
            concat_str(out.as_str(), ",")
        };
        let a = concat_str(sep.as_str(), "\"");
        let b = concat_str(a.as_str(), servers[i].as_str());
        let c = concat_str(b.as_str(), "\"");
        proof {
            if i == 0 {
                assert(v.take(0) =~= Seq::<Seq<char>>::empty());
                assert(v.take(1)[0] == servers@[0]@);
                assert(c@ =~= quoted_list(v.take(1)));
            } else {
                assert(c@ =~= quoted_list(v.take(i + 1)));
            }
        }
        out = c;
        i = i + 1;
    }
    assert(v.take(servers.len() as int) =~= v);
    out
}

/// The PowerShell command that sets an adapter's DNS servers.
pub open spec fn dns_script_spec(adapter: Seq<char>, servers: Seq<Seq<char>>) -> Seq<char> {
    "Set-DnsClientServerAddress -InterfaceAlias '"@ + adapter + "' -ServerAddresses ("@
        + quoted_list(servers) + ")"@
}

/// The PowerShell command that sets an adapter's DNS servers.
pub fn dns_script(adapter: &str, servers: &Vec<String>) -> (s: String)
    ensures
        s@ == dns_script_spec(adapter@, ids_view(servers@)),
{
    let list = servers_ps(servers);
    let a = concat_str("Set-DnsClientServerAddress -InterfaceAlias '", adapter);
    let b = concat_str(a.as_str(), "' -ServerAddresses (");
    let c = concat_str(b.as_str(), list.as_str());
    let d = concat_str(c.as_str(), ")");
    assert(d@ =~= dns_script_spec(adapter@, ids_view(servers@)));
    d
}

/// The interface type of a software loopback adapter.
pub const IF_TYPE_SOFTWARE_LOOPBACK: u32 = 24;

/// The interface type of a tunnel adapter.
pub const IF_TYPE_TUNNEL: u32 = 131;

/// A network adapter: its name, whether it is up, its interface type and
/// its DNS servers.
#[derive(Debug, Clone)]
pub struct Adapter {
    pub name: String,
    pub up: bool,
    pub if_type: u32,
    pub dns_servers: Vec<String>,
}

/// Whether an adapter gets the local resolver: it is up, and is neither a
/// loopback nor a tunnel adapter.
pub open spec fn adapter_selected(up: bool, if_type: u32) -> bool {
    up && if_type != IF_TYPE_SOFTWARE_LOOPBACK && if_type != IF_TYPE_TUNNEL
}

/// Whether an adapter gets the local resolver.
pub fn is_selected_adapter(up: bool, if_type: u32) -> (b: bool)
    ensures
        b == adapter_selected(up, if_type),
{
    up && if_type != IF_TYPE_SOFTWARE_LOOPBACK && if_type != IF_TYPE_TUNNEL
}

/// The commands for the adapters, in order: one for each selected adapter,
/// putting the local resolver first on it.
pub open spec fn override_scripts(local: Seq<char>, secondary: Seq<char>, adapters: Seq<Adapter>) -> Seq<
    Seq<char>,
>
    decreases adapters.len(),
{
    if adapters.len() == 0 {
        seq![]
    } else {
        let rest = override_scripts(local, secondary, adapters.drop_last());
        let a = adapters.last();
        if adapter_selected(a.up, a.if_type) {
            rest.push(
                dns_script_spec(
                    a.name@,
                    adapter_servers_spec(local, secondary, ids_view(a.dns_servers@)),
                ),
            )
        } else {
            rest
        }
    }
}

/// The commands that put the local resolver first on every adapter that is
/// up and is neither a loopback nor a tunnel adapter.
pub fn override_commands(local: &str, secondary: &Option<String>, adapters: &Vec<Adapter>) -> (r:
    Vec<String>)
    ensures
        ids_view(r@) == override_scripts(
            local@,
            match secondary {
                Some(t) => t@,
                None => default_secondary(),
            },
            adapters@,
        ),
{
    let second = secondary_address(secondary);
    let mut out: Vec<String> = Vec::new();
    let mut i: usize = 0;
    while i < adapters.len()
        invariant
            i <= adapters@.len(),
            second@ == match secondary {
                Some(t) => t@,
                None => default_secondary(),
            },
            ids_view(out@) == override_scripts(local@, second@, adapters@.take(i as int)),
        decreases adapters.len() - i,
    {
        proof {
            assert(adapters@.take(i + 1).drop_last() =~= adapters@.take(i as int));
            assert(adapters@.take(i + 1).last() == adapters@[i as int]);
        }
        if is_selected_adapter(adapters[i].up, adapters[i].if_type) {
            let servers = adapter_servers(local, second.as_str(), &adapters[i].dns_servers);
            let script = dns_script(adapters[i].name.as_str(), &servers);
            let ghost before = out@;
            out.push(script);
            assert(ids_view(out@) =~= ids_view(before).push(script@));
        }
        i = i + 1;
    }
    assert(adapters@.take(adapters.len() as int) =~= adapters@);
    out
}

/// The DNS-over-HTTPS endpoint of the local server.
pub open spec fn doh_base() -> Seq<char> {
    "https://127.0.0.1:443/dns-query"@
}

/// The DNS-over-HTTPS endpoint a device is given: none when encryption is
/// declined, the device's own endpoint when one is named, the shared one otherwise.
pub fn doh_endpoint(device_id: &Option<String>, no_doh: bool) -> (r: Option<String>)
    ensures
        no_doh ==> r is None,
        !no_doh ==> (r matches Some(u) && u@ == match device_id {
            Some(id) => doh_base() + "/"@ + id@,
            None => doh_base(),
        }),
{
    if no_doh {
        None
    } else {
        match device_id {
            Some(id) => {
                let a = concat_str("https://127.0.0.1:443/dns-query", "/");
                Some(concat_str(a.as_str(), id.as_str()))
            },
            None => Some("https://127.0.0.1:443/dns-query".to_owned()),
        }
    }
}

/// The filtering layer a firewall filter sits in.
#[derive(Debug, Clone, Copy, PartialEq, Eq, Structural)]
pub enum FilterLayer {
    /// Outgoing IPv4 connections.
    ConnectV4,
    /// Outgoing IPv6 connections.
    ConnectV6,
}

/// What a firewall filter does with matching traffic.
#[derive(Debug, Clone, Copy, PartialEq, Eq, Structural)]
pub enum FilterAction {
    Permit,
    Block,
}

/// The condition of a firewall filter.
#[derive(Debug, Clone, Copy, PartialEq, Eq, Structural)]
pub enum FilterCondition {
    /// The remote IPv4 address (big-endian value).
    RemoteAddrV4(u32),
    /// The remote port.
    RemotePort(u16),
}

/// A firewall filter: its name, layer, action, condition and weight.
#[derive(Debug, Clone, Copy)]
pub struct FirewallFilter {
    pub name: &'static str,
    pub layer: FilterLayer,
    pub action: FilterAction,
    pub condition: FilterCondition,
    pub weight: u8,
}

/// Why the firewall filters could not be made.
#[derive(Debug, Clone, Copy, PartialEq, Eq, Structural)]
pub enum FirewallError {
    /// The local resolver listens on an IPv6 address, which is not supported.
    Ipv6Resolver,
}

/// The filters that keep other resolvers out: connections to the local
/// resolver are permitted (weight 15), connections to port 53 are blocked
/// on IPv4 and IPv6 (weight 14). A resolver on IPv6 is refused.
pub fn external_dns_filters(resolver: IpAddress) -> (r: Result<Vec<FirewallFilter>, FirewallError>)
    ensures
        match resolver {
            IpAddress::V6(_) => r == Err::<Vec<FirewallFilter>, FirewallError>(
                FirewallError::Ipv6Resolver,
            ),
            IpAddress::V4(a) => r matches Ok(v) && v@.len() == 3 && {
                &&& v@[0].name@ == "Allow local DNS resolver"@
                &&& v@[0].layer == FilterLayer::ConnectV4
                &&& v@[0].action == FilterAction::Permit
                &&& v@[0].condition == FilterCondition::RemoteAddrV4(a)
                &&& v@[0].weight == 15
                &&& v@[1].name@ == "Block DNS v4"@
                &&& v@[1].layer == FilterLayer::ConnectV4
                &&& v@[1].action == FilterAction::Block
                &&& v@[1].condition == FilterCondition::RemotePort(53)
                &&& v@[1].weight == 14
                &&& v@[2].name@ == "Block DNS v6"@
                &&& v@[2].layer == FilterLayer::ConnectV6
                &&& v@[2].action == FilterAction::Block
                &&& v@[2].condition == FilterCondition::RemotePort(53)
                &&& v@[2].weight == 14
            },
        },
{
    match resolver {
        IpAddress::V6(_) => Err(FirewallError::Ipv6Resolver),
        IpAddress::V4(a) => {
            let mut v: Vec<FirewallFilter> = Vec::new();
            v.push(
                FirewallFilter {
                    name: "Allow local DNS resolver",
                    layer: FilterLayer::ConnectV4,
                    action: FilterAction::Permit,
                    condition: FilterCondition::RemoteAddrV4(a),
                    weight: 15,
                },
            );
            v.push(
                FirewallFilter {
                    name: "Block DNS v4",
                    layer: FilterLayer::ConnectV4,
                    action: FilterAction::Block,
                    condition: FilterCondition::RemotePort(53),
                    weight: 14,
                },
            );
            v.push(
                FirewallFilter {
                    name: "Block DNS v6",
                    layer: FilterLayer::ConnectV6,
                    action: FilterAction::Block,
                    condition: FilterCondition::RemotePort(53),
                    weight: 14,
                },
            );
            Ok(v)
        },
    }
}

/// The length a DNS-over-TLS length prefix announces (big-endian).
pub open spec fn prefix_len(hi: u8, lo: u8) -> nat {
    (hi as nat) * 256 + (lo as nat)
}

/// The length a DNS-over-TLS length prefix announces.
pub fn frame_length(prefix: [u8; 2]) -> (n: usize)
    ensures
        n == prefix_len(prefix@[0], prefix@[1]),
{
    let hi = prefix[0];
    let lo = prefix[1];
    (hi as usize) * 256 + (lo as usize)
}

/// A DNS-over-TLS frame: the length of `bytes` as two big-endian bytes
/// (taken modulo 65536), then the bytes.
pub open spec fn framed(bytes: Seq<u8>) -> Seq<u8> {
    seq![((bytes.len() % 65536) / 256) as u8, (bytes.len() % 256) as u8] + bytes
}

/// Frames an encoded response for DNS over TLS.
pub fn frame_message(bytes: &Vec<u8>) -> (r: Vec<u8>)
    ensures
        r@ == framed(bytes@),
{
    let n = bytes.len();
    let low16: usize = n % 65536;
    let hi: u8 = (low16 / 256) as u8;
    let lo: u8 = (n % 256) as u8;
    let mut out: Vec<u8> = Vec::new();
    out.push(hi);
    out.push(lo);
    let mut i: usize = 0;
    while i < bytes.len()
        invariant
            i <= bytes@.len(),
            n == bytes@.len(),
            out@ == seq![hi, lo] + bytes@.take(i as int),
        decreases bytes.len() - i,
    {
        out.push(bytes[i]);
        proof {
            assert(bytes@.take(i + 1) =~= bytes@.take(i as int).push(bytes@[i as int]));
            assert(out@ =~= seq![hi, lo] + bytes@.take(i + 1));
        }
        i = i + 1;
    }
    assert(bytes@.take(n as int) =~= bytes@);
    out
}

/// Law: the prefix of a frame announces the length of what follows it,
/// for any message shorter than 65536 bytes.
pub proof fn law_frame_round_trip(bytes: Seq<u8>)
    requires
        bytes.len() < 65536,
    ensures
        framed(bytes).len() == bytes.len() + 2,
        prefix_len(framed(bytes)[0], framed(bytes)[1]) == bytes.len(),
        framed(bytes).skip(2) == bytes,
{
    let n = bytes.len();
    assert(n % 65536 == n);
    assert(((n / 256) as u8) as nat == n / 256);
    assert(((n % 256) as u8) as nat == n % 256);
    assert(framed(bytes).skip(2) =~= bytes);
}

/// The query string of a DNS-over-HTTPS GET request.
#[derive(Debug, Clone)]
pub struct DohQuery {
    /// The request, base64url-encoded without padding.
    pub dns: String,
}

/// The bytes that base64url decoding without padding
/// (`URL_SAFE_NO_PAD.decode`) gives for `text`, or `None` where `text` is
/// not valid base64url.
pub uninterp spec fn base64url_decoded(text: Seq<char>) -> Option<Seq<u8>>;

/// Decodes base64url without padding (`URL_SAFE_NO_PAD.decode`).
#[verifier::external_body]
fn decode_base64url(text: &str) -> (r: Option<Vec<u8>>)
    ensures
        match r {
            Some(b) => base64url_decoded(text@) == Some(b@),
            None => base64url_decoded(text@) is None,
        },
{
    base64::engine::general_purpose::URL_SAFE_NO_PAD.decode(text).ok()
}

/// The request bytes carried by a DNS-over-HTTPS GET query, or `None` where
/// its `dns` parameter is not valid base64url.
pub fn doh_request_bytes(query: &DohQuery) -> (r: Option<Vec<u8>>)
    ensures
        match r {
            Some(b) => base64url_decoded(query.dns@) == Some(b@),
            None => base64url_decoded(query.dns@) is None,
        },
{
    decode_base64url(query.dns.as_str())
}

/// The body of a response to fetch the certificate revocation list.
#[derive(Debug, Clone)]
pub struct CrlPem(pub Vec<u8>);

impl CrlPem {
    /// A copy of the revocation list's bytes, served as `application/pkix-crl`.
    pub fn body(&self) -> (b: Vec<u8>)
        ensures
            b@ == self.0@,
    {
        let mut out: Vec<u8> = Vec::new();
        let mut i: usize = 0;
        while i < self.0.len()
            invariant
                i <= self.0@.len(),
                out@ == self.0@.take(i as int),
            decreases self.0.len() - i,
        {
            out.push(self.0[i]);
            assert(self.0@.take(i + 1) =~= self.0@.take(i as int).push(self.0@[i as int]));
            i = i + 1;
        }
        assert(self.0@.take(self.0@.len() as int) =~= self.0@);
        out
    }
}

} // verus!
