//! The server's configuration: enabled filter lists, upstream servers,
//! custom rules, rewrites and feature switches, with the defaults written
//! on first start and the settings the dashboard edits.

use vstd::prelude::*;
use crate::rewrite::{compile_rewrites, regex_compiles, rewrites_compiled, rewrites_view, RegexError, Rewrite, RewriteMatchWhenType};
use crate::rules::{opt_rules_view, rule_warnings, rule_warnings_spec, Rule};
use crate::text::copy_string;

verus! {

/// An IP address: the big-endian value of its octets.
#[derive(Debug, Clone, Copy, PartialEq, Eq, Structural)]
pub enum IpAddress {
    V4(u32),
    V6(u128),
}

/// An upstream DNS server: the name its certificate is checked against and its address.
#[derive(Debug, Clone)]
pub struct UpstreamServer {
    pub name: String,
    pub addr: IpAddress,
}

impl View for UpstreamServer {
    type V = (Seq<char>, IpAddress);

    open spec fn view(&self) -> (Seq<char>, IpAddress) {
        (self.name@, self.addr)
    }
}

/// The views of an optional list of upstream servers.
pub open spec fn upstreams_view(o: Option<Vec<UpstreamServer>>) -> Option<Seq<(Seq<char>, IpAddress)>> {
    match o {
        Some(v) => Some(v@.map_values(|u: UpstreamServer| u@)),
        None => None,
    }
}

impl UpstreamServer {
    /// An upstream server.
    pub fn new(name: String, addr: IpAddress) -> (s: UpstreamServer)
        ensures
            s@ == (name@, addr),
    {
        UpstreamServer { name, addr }
    }

    /// A server with the same name and address.
    pub fn copy(&self) -> (s: UpstreamServer)
        ensures
            s@ == self@,
    {
        UpstreamServer { name: copy_string(&self.name), addr: self.addr }
    }
}

/// A copy of a list of upstream servers.
pub fn copy_upstreams(o: &Option<Vec<UpstreamServer>>) -> (r: Option<Vec<UpstreamServer>>)
    ensures
        upstreams_view(r) == upstreams_view(*o),
{
    match o {
        None => None,
        Some(v) => {
            let mut out: Vec<UpstreamServer> = Vec::new();
            let mut i: usize = 0;
            while i < v.len()
                invariant
                    i <= v.len(),
                    out@.map_values(|u: UpstreamServer| u@) == v@.take(i as int).map_values(
                        |u: UpstreamServer| u@,
                    ),
                decreases v.len() - i,
            {
                let ghost before = out@;
                let u = v[i].copy();
                out.push(u);
                proof {
                    assert(out@ == before.push(u));
                    assert(v@.take(i + 1) =~= v@.take(i as int).push(v@[i as int]));
                    assert(out@.map_values(|u: UpstreamServer| u@) =~= before.map_values(
                        |u: UpstreamServer| u@,
                    ).push(u@));
                    assert(v@.take(i + 1).map_values(|u: UpstreamServer| u@) =~= v@.take(
                        i as int,
                    ).map_values(|u: UpstreamServer| u@).push(v@[i as int]@));
                    assert(out@.map_values(|u: UpstreamServer| u@) =~= v@.take(i + 1).map_values(
                        |u: UpstreamServer| u@,
                    ));
                }
                i = i + 1;
            }
            assert(v@.take(v.len() as int) =~= v@);
            Some(out)
        },
    }
}

/// `1.1.1.1`.
pub const CLOUDFLARE_PRIMARY: u32 = 0x0101_0101;

/// `1.0.0.1`.
pub const CLOUDFLARE_SECONDARY: u32 = 0x0100_0001;

/// The server's configuration.
#[derive(Debug, Clone)]
pub struct Config {
    /// Ids of the enabled filter lists.
    pub blocklists: Vec<String>,
    pub upstreams: Option<Vec<UpstreamServer>>,
    pub rules: Option<Vec<Rule>>,
    pub doh: Option<bool>,
    pub dashboard: Option<bool>,
    pub rewrites: Option<Vec<Rewrite>>,
    pub dnssec: Option<bool>,
}

/// The views of the enabled list ids.
pub open spec fn ids_view(v: Seq<String>) -> Seq<Seq<char>> {
    v.map_values(|s: String| s@)
}

impl Config {
    /// The configuration written on first start: the `oisd-big` list, the
    /// two Cloudflare resolvers, DoH and the dashboard on, DNSSEC off, no
    /// rules and no rewrites.
    pub fn default_values() -> (c: Config)
        ensures
            ids_view(c.blocklists@) == seq!["oisd-big"@],
            upstreams_view(c.upstreams) == Some(
                seq![
                    ("cloudflare-dns.com"@, IpAddress::V4(CLOUDFLARE_PRIMARY)),
                    ("cloudflare-dns.com"@, IpAddress::V4(CLOUDFLARE_SECONDARY)),
                ],
            ),
            c.rules is None,
            c.doh == Some(true),
            c.dashboard == Some(true),
            c.rewrites is None,
            c.dnssec == Some(false),
    {
        let mut blocklists: Vec<String> = Vec::new();
        blocklists.push("oisd-big".to_owned());
        let mut upstreams: Vec<UpstreamServer> = Vec::new();
        upstreams.push(
            UpstreamServer::new("cloudflare-dns.com".to_owned(), IpAddress::V4(CLOUDFLARE_PRIMARY)),
        );
        upstreams.push(
            UpstreamServer::new(
                "cloudflare-dns.com".to_owned(),
                IpAddress::V4(CLOUDFLARE_SECONDARY),
            ),
        );
        let c = Config {
            blocklists,
            upstreams: Some(upstreams),
            rules: None,
            doh: Some(true),
            dashboard: Some(true),
            rewrites: None,
            dnssec: Some(false),
        };
        assert(ids_view(c.blocklists@) =~= seq!["oisd-big"@]);
        assert(c.upstreams.unwrap()@.map_values(|u: UpstreamServer| u@) =~= seq![
            ("cloudflare-dns.com"@, IpAddress::V4(CLOUDFLARE_PRIMARY)),
            ("cloudflare-dns.com"@, IpAddress::V4(CLOUDFLARE_SECONDARY)),
        ]);
        c
    }

    /// Compiles the regex of every regex rewrite, stopping at the first
    /// invalid pattern.
    pub fn compile_regexes(&mut self) -> (r: Result<(), RegexError>)
        ensures
            final(self).blocklists == old(self).blocklists,
            final(self).upstreams == old(self).upstreams,
            final(self).rules == old(self).rules,
            final(self).doh == old(self).doh,
            final(self).dashboard == old(self).dashboard,
            final(self).dnssec == old(self).dnssec,
            match old(self).rewrites {
                None => r is Ok && final(self).rewrites is None,
                Some(v) => final(self).rewrites matches Some(w) && {
                    &&& w.len() == v.len()
                    &&& forall|i: int|
                        0 <= i < v.len() ==> (#[trigger] w[i]).when == v[i].when && w[i].actions
                            == v[i].actions
                    &&& (r is Ok <==> forall|i: int|
                        0 <= i < v.len() && (#[trigger] v[i]).when.ty
                            == RewriteMatchWhenType::Regex ==> regex_compiles(v[i].when.value@))
                    &&& r is Ok ==> rewrites_compiled(rewrites_view(w@))
                },
            },
    {
        match self.rewrites.take() {
            None => Ok(()),
            Some(mut v) => {
                let r = compile_rewrites(&mut v);
                self.rewrites = Some(v);
                r
            },
        }
    }

    /// The warnings about custom rules whose domain carries the `@@`
    /// exception marker, in the order of the rules.
    pub fn validate_rules(&self) -> (ws: Vec<String>)
        ensures
            ws@.map_values(|s: String| s@) == match opt_rules_view(self.rules) {
                Some(rs) => rule_warnings_spec(rs),
                None => Seq::<Seq<char>>::empty(),
            },
    {
        rule_warnings(&self.rules)
    }

    /// Whether DNS over HTTPS is served (on unless switched off).
    pub fn doh_enabled(&self) -> (b: bool)
        ensures
            b == match self.doh {
                Some(x) => x,
                None => true,
            },
    {
        match self.doh {
            Some(x) => x,
            None => true,
        }
    }

    /// Whether the dashboard is served (on unless switched off).
    pub fn dashboard_enabled(&self) -> (b: bool)
        ensures
            b == match self.dashboard {
                Some(x) => x,
                None => true,
            },
    {
        match self.dashboard {
            Some(x) => x,
            None => true,
        }
    }

    /// Whether DNSSEC validation is on (off unless switched on).
    pub fn dnssec_enabled(&self) -> (b: bool)
        ensures
            b == match self.dnssec {
                Some(x) => x,
                None => false,
            },
    {
        match self.dnssec {
            Some(x) => x,
            None => false,
        }
    }
}

/// The settings the dashboard shows and edits.
#[derive(Debug, Clone)]
pub struct Settings {
    pub upstreams: Option<Vec<UpstreamServer>>,
    pub dnssec: Option<bool>,
}

/// The content of the settings: the upstream servers and the DNSSEC switch.
pub open spec fn settings_view(s: Settings) -> (Option<Seq<(Seq<char>, IpAddress)>>, Option<bool>) {
    (upstreams_view(s.upstreams), s.dnssec)
}

/// The settings part of a configuration.
pub open spec fn config_settings(c: Config) -> (Option<Seq<(Seq<char>, IpAddress)>>, Option<bool>) {
    (upstreams_view(c.upstreams), c.dnssec)
}

/// A configuration with its settings taken from `s`.
pub open spec fn with_settings(c: Config, s: Settings) -> Config {
    Config { upstreams: s.upstreams, dnssec: s.dnssec, ..c }
}

impl Config {
    /// The editable settings of the configuration.
    pub fn as_settings(&self) -> (s: Settings)
        ensures
            settings_view(s) == config_settings(*self),
    {
        Settings { upstreams: copy_upstreams(&self.upstreams), dnssec: self.dnssec }
    }

    /// Takes the upstream servers and the DNSSEC switch from `settings`,
    /// leaving the rest as it was.
    pub fn apply_settings(&mut self, settings: Settings)
        ensures
            *final(self) == with_settings(*old(self), settings),
    {
        self.dnssec = settings.dnssec;
        self.upstreams = settings.upstreams;
    }
}

/// Law: after the settings are edited, the configuration reports exactly
/// the settings written.
pub proof fn law_settings_read_back(c: Config, s: Settings)
    ensures
        config_settings(with_settings(c, s)) == settings_view(s),
{
}

} // verus!
