use dns_adblock::config::{Config, IpAddress, Settings, UpstreamServer};
use dns_adblock::lists::{
    default_lists, id_hash, is_known_list, list_ids, list_url, lists_with_status, plan_fetch,
    toggle_list, CacheFile, FetchPlan, ListError, ToggleListBody, LIST_MAX_AGE_SECS,
};
use dns_adblock::rewrite::{RegexError, Rewrite, RewriteMatchWhen, RewriteMatchWhenType};
use dns_adblock::rules::{Rule, RuleAction};

#[test]
fn default_configuration() {
    let c = Config::default_values();
    assert_eq!(c.blocklists, vec!["oisd-big".to_string()]);
    let ups = c.upstreams.as_ref().unwrap();
    assert_eq!(ups.len(), 2);
    assert_eq!(ups[0].name, "cloudflare-dns.com");
    assert_eq!(ups[0].addr, IpAddress::V4(0x01010101));
    assert_eq!(ups[1].addr, IpAddress::V4(0x01000001));
    assert!(c.rules.is_none());
    assert!(c.rewrites.is_none());
    assert!(c.doh_enabled());
    assert!(c.dashboard_enabled());
    assert!(!c.dnssec_enabled());
}

#[test]
fn switches_default_when_absent() {
    let mut c = Config::default_values();
    c.doh = None;
    c.dashboard = None;
    c.dnssec = None;
    assert!(c.doh_enabled());
    assert!(c.dashboard_enabled());
    assert!(!c.dnssec_enabled());
    c.doh = Some(false);
    c.dnssec = Some(true);
    assert!(!c.doh_enabled());
    assert!(c.dnssec_enabled());
}

#[test]
fn settings_edit_reads_back() {
    let mut c = Config::default_values();
    let s = Settings {
        upstreams: Some(vec![UpstreamServer::new("dns.google".to_string(), IpAddress::V4(0x08080808))]),
        dnssec: Some(true),
    };
    c.apply_settings(s);
    let back = c.as_settings();
    assert_eq!(back.dnssec, Some(true));
    let ups = back.upstreams.unwrap();
    assert_eq!(ups.len(), 1);
    assert_eq!(ups[0].name, "dns.google");
    assert_eq!(c.blocklists, vec!["oisd-big".to_string()]);
}

#[test]
fn invalid_regex_is_reported() {
    let mut c = Config::default_values();
    c.rewrites = Some(vec![Rewrite {
        when: RewriteMatchWhen { ty: RewriteMatchWhenType::Regex, value: "(".to_string() },
        actions: vec![],
        regex: None,
    }]);
    assert_eq!(c.compile_regexes(), Err(RegexError::InvalidPattern));
    c.rewrites = Some(vec![Rewrite {
        when: RewriteMatchWhen { ty: RewriteMatchWhenType::Regex, value: "^a".to_string() },
        actions: vec![],
        regex: None,
    }]);
    assert_eq!(c.compile_regexes(), Ok(()));
    assert!(c.rewrites.unwrap()[0].regex.is_some());
}

#[test]
fn validate_rules_reports_marker() {
    let mut c = Config::default_values();
    c.rules = Some(vec![Rule { domain: "@@a.com".to_string(), action: RuleAction::Allow }]);
    assert_eq!(c.validate_rules(), vec!["allow rule '@@a.com' already contains @@; remove the prefix".to_string()]);
}

#[test]
fn catalogue_of_lists() {
    let lists = default_lists();
    assert_eq!(lists.len(), 22);
    assert!(lists.len() > 20);
    assert_eq!(lists[0].id, "oisd-big");
    assert_eq!(lists[0].url, "https://big.oisd.nl");
    assert_eq!(lists[12].id, "dandelion-malware");
    assert!(lists.iter().all(|l| l.domains.is_none() && l.enabled.is_none()));
    assert_eq!(list_ids().len(), 22);
    assert_eq!(list_ids()[21], "nocoin");
    assert_eq!(list_ids()[8], "easylist");
    assert!(is_known_list("easyprivacy"));
    assert!(!is_known_list("nope"));
    assert_eq!(list_url("easylist"), Some("https://easylist.to/easylist/easylist.txt".to_string()));
    assert_eq!(list_url("nope"), None);
}

#[test]
fn id_hash_is_first_eight_digest_bytes() {
    assert_eq!(id_hash("oisd-big"), "e02a9c7140bad9ec");
    assert_eq!(id_hash("easylist"), "a3327df0adf56370");
}

#[test]
fn cache_file_read_after_write() {
    let mut c = CacheFile::new();
    assert!(c.get_by_id("easylist").is_none());
    c.insert_at("easylist", Some("\"v1\"".to_string()), 10, 1000);
    c.insert_at("oisd-big", None, 5, 1000);
    let e = c.get_by_id("easylist").unwrap();
    assert_eq!(e.domains, 10);
    assert_eq!(e.etag.as_deref(), Some("\"v1\""));
    c.insert_at("easylist", None, 20, 2000);
    assert_eq!(c.lists.len(), 2);
    assert_eq!(c.get_by_id("easylist").unwrap().domains, 20);
    assert_eq!(c.get_by_id("oisd-big").unwrap().domains, 5);
    assert!(c.is_fresh_at("easylist", LIST_MAX_AGE_SECS, 2000 + 100));
    assert!(!c.is_fresh_at("easylist", LIST_MAX_AGE_SECS, 2000 + LIST_MAX_AGE_SECS));
    c.insert("urlhaus", None, 1);
    assert!(c.is_fresh("urlhaus", LIST_MAX_AGE_SECS));
}

#[test]
fn fetch_plan() {
    let mut c = CacheFile::new();
    assert!(matches!(plan_fetch(&c, "easylist", true, 10), FetchPlan::Download { etag: None }));
    c.insert_at("easylist", Some("tag".to_string()), 1, 0);
    assert!(matches!(plan_fetch(&c, "easylist", true, 10), FetchPlan::UseCached));
    match plan_fetch(&c, "easylist", false, 10) {
        FetchPlan::Download { etag } => assert_eq!(etag, Some("tag".to_string())),
        FetchPlan::UseCached => panic!("no file on disk"),
    }
    match plan_fetch(&c, "easylist", true, LIST_MAX_AGE_SECS) {
        FetchPlan::Download { etag } => assert_eq!(etag, Some("tag".to_string())),
        FetchPlan::UseCached => panic!("a day old"),
    }
}

#[test]
fn lists_show_status() {
    let mut c = CacheFile::new();
    c.insert_at("oisd-small", None, 42, 0);
    let v = lists_with_status(&c, &vec!["oisd-small".to_string()]);
    assert_eq!(v.len(), 22);
    assert_eq!(v[1].id, "oisd-small");
    assert_eq!(v[1].domains, Some(42));
    assert_eq!(v[1].enabled, Some(true));
    assert_eq!(v[0].domains, None);
    assert_eq!(v[0].enabled, Some(false));
}

#[test]
fn toggle_list_twice_restores() {
    let mut c = Config::default_values();
    let body = |id: &str| ToggleListBody { list_id: id.to_string() };
    assert_eq!(toggle_list(&mut c, body("unknown")), Err(ListError::UnknownList));
    assert_eq!(ListError::UnknownList.message(), "Can't toggle a list that doesn't exist");
    assert_eq!(c.blocklists, vec!["oisd-big".to_string()]);
    toggle_list(&mut c, body("easylist")).unwrap();
    assert_eq!(c.blocklists, vec!["oisd-big".to_string(), "easylist".to_string()]);
    toggle_list(&mut c, body("easylist")).unwrap();
    assert_eq!(c.blocklists, vec!["oisd-big".to_string()]);
    toggle_list(&mut c, body("oisd-big")).unwrap();
    assert!(c.blocklists.is_empty());
}
