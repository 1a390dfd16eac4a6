use dns_adblock::blocking::{build_engine, scan_verdict, cache_key, lookup_block, lookup_block_cached, BlockOrigin, BlockResult, Blocker, MiddlewareResult};
use dns_adblock::cache::{blocked_entry, classify_entry, patch_id, CacheEntry, CacheLookup, DnsCache, ResolvedCacheEntry, ResponseCache};
use dns_adblock::process::{
    complete, decide, handle_blocked_response, handle_resolve_error, handle_resolved,
    negative_ttl, prepare_request, request_key, smallest_ttl, try_cache, upstream_base,
    Decision, ProcessError, ResolveFailure,
};
use dns_adblock::response::{first_answer_ip, ipv4_to_string, query_domain, restore_original_queries};
use dns_adblock::rewrite::{
    apply_rewrites, classify_actions, rewrite_matches, Rewrite, RewriteAction, RewriteBehavior,
    RewriteMatchWhen, RewriteMatchWhenType,
};
use hickory_proto::op::{Message, MessageType, OpCode, Query, ResponseCode};
use hickory_proto::rr::rdata::{A, AAAA};
use hickory_proto::rr::{Name, RData, Record, RecordType};
use std::str::FromStr;

fn query(id: u16, name: &str, t: RecordType) -> Message {
    let mut m = Message::new(id, MessageType::Query, OpCode::Query);
    m.add_query(Query::query(Name::from_str(name).unwrap(), t));
    m
}

fn a_record(name: &str, ttl: u32, ip: [u8; 4]) -> Record {
    Record::from_rdata(
        Name::from_str(name).unwrap(),
        ttl,
        RData::A(A::new(ip[0], ip[1], ip[2], ip[3])),
    )
}

fn exact_rewrite(host: &str, actions: Vec<RewriteAction>) -> Rewrite {
    Rewrite {
        when: RewriteMatchWhen { ty: RewriteMatchWhenType::Exact, value: host.to_string() },
        actions,
        regex: None,
    }
}

#[test]
fn blocked_a_query_gets_sinkhole_for_five_minutes() {
    let q = query(77, "ads.example.com.", RecordType::A);
    let r = handle_blocked_response(&q);
    assert_eq!(r.metadata.id, 77);
    assert_eq!(r.metadata.message_type, MessageType::Response);
    assert_eq!(r.metadata.response_code, ResponseCode::NoError);
    assert_eq!(r.queries.len(), 1);
    assert_eq!(r.answers.len(), 1);
    assert_eq!(r.answers[0].ttl, 300);
    assert_eq!(r.answers[0].data, RData::A(A::new(127, 0, 0, 1)));
    assert_eq!(r.answers[0].name.to_string(), "ads.example.com.");
}

#[test]
fn blocked_mx_query_gets_nxdomain() {
    let q = query(5, "ads.example.com.", RecordType::MX);
    let r = handle_blocked_response(&q);
    assert!(r.answers.is_empty());
    assert_eq!(r.metadata.response_code, ResponseCode::NXDomain);
}

#[test]
fn malformed_request_is_refused() {
    assert!(matches!(prepare_request(&[1, 2, 3], &None), Err(ProcessError::Malformed)));
}

#[test]
fn blocked_verdict_answers_with_short_ttl() {
    let bytes = query(9, "tracker.test.", RecordType::AAAA).to_vec().unwrap();
    let p = prepare_request(&bytes, &None).unwrap();
    assert!(!p.rewrite.synthetic_response);
    match decide(&p, BlockResult::Block) {
        Decision::Respond { blocked, response } => {
            assert!(blocked);
            assert_eq!(response.answers.len(), 1);
            assert_eq!(response.answers[0].ttl, 5);
            assert_eq!(response.metadata.id, 9);
        }
        Decision::Resolve => panic!("a blocked request is answered at once"),
    }
    assert!(matches!(decide(&p, BlockResult::Allow), Decision::Resolve));
}

#[test]
fn nxdomain_rewrite_answers_locally() {
    let bytes = query(3, "blocked.test.", RecordType::A).to_vec().unwrap();
    let rewrites = Some(vec![exact_rewrite("blocked.test", vec![RewriteAction::NXDOMAIN])]);
    let p = prepare_request(&bytes, &rewrites).unwrap();
    assert!(p.rewrite.synthetic_response);
    match decide(&p, BlockResult::Allow) {
        Decision::Respond { blocked, response } => {
            assert!(!blocked);
            assert_eq!(response.metadata.response_code, ResponseCode::NXDomain);
            assert_eq!(response.metadata.message_type, MessageType::Response);
        }
        Decision::Resolve => panic!("the rewrite answered the request"),
    }
}

#[test]
fn address_rewrite_adds_answer() {
    let mut msg = query(4, "home.test.", RecordType::A);
    let rewrites = Some(vec![exact_rewrite("home.test", vec![RewriteAction::A { value: 0x0a000001 }])]);
    let r = apply_rewrites(&rewrites, &mut msg).unwrap();
    assert!(r.synthetic_response);
    assert!(!r.restore_original_queries);
    assert_eq!(msg.answers.len(), 1);
    assert_eq!(msg.answers[0].data, RData::A(A::new(10, 0, 0, 1)));
    assert_eq!(msg.answers[0].ttl, 300);
}

#[test]
fn name_rewrite_is_restored_in_response() {
    let bytes = query(6, "alias.test.", RecordType::A).to_vec().unwrap();
    let rewrites = Some(vec![exact_rewrite(
        "alias.test",
        vec![RewriteAction::Rewrite { value: "target.test".to_string() }],
    )]);
    let p = prepare_request(&bytes, &rewrites).unwrap();
    assert!(p.rewrite.restore_original_queries);
    assert!(!p.rewrite.synthetic_response);
    assert_eq!(p.msg.queries[0].name.to_string(), "target.test");
    let mut upstream = upstream_base(&p.msg);
    upstream.add_answer(a_record("target.test.", 60, [1, 2, 3, 4]));
    let done = complete(&p, upstream);
    assert_eq!(done.queries[0].name.to_string(), "alias.test.");
    assert_eq!(done.answers[0].name.to_string(), "alias.test.");
}

#[test]
fn invalid_rewrite_name_is_an_error() {
    let bytes = query(6, "alias.test.", RecordType::A).to_vec().unwrap();
    let long_label = "a".repeat(70);
    let rewrites = Some(vec![exact_rewrite(
        "alias.test",
        vec![RewriteAction::Rewrite { value: long_label }],
    )]);
    assert!(matches!(prepare_request(&bytes, &rewrites), Err(ProcessError::InvalidRewrite)));
}

#[test]
fn classify_and_match_rewrites() {
    let acts = vec![RewriteAction::A { value: 1 }, RewriteAction::NOERROR, RewriteAction::NXDOMAIN];
    assert!(matches!(classify_actions(&acts), RewriteBehavior::NoError));
    assert!(matches!(classify_actions(&vec![RewriteAction::A { value: 1 }]), RewriteBehavior::AnswersOnly));
    let r = exact_rewrite("x.test", vec![]);
    assert!(rewrite_matches(&r, "x.test"));
    assert!(!rewrite_matches(&r, "y.test"));
    let mut re = Rewrite {
        when: RewriteMatchWhen { ty: RewriteMatchWhenType::Regex, value: "^ads\\.".to_string() },
        actions: vec![],
        regex: None,
    };
    re.compile().unwrap();
    assert!(rewrite_matches(&re, "ads.example.com"));
    assert!(!rewrite_matches(&re, "example.com"));
}

#[test]
fn negative_ttl_takes_smallest_soa_minimum_capped_at_an_hour() {
    assert_eq!(negative_ttl(&None), 60);
    assert_eq!(negative_ttl(&Some(vec![])), 60);
    assert_eq!(negative_ttl(&Some(vec![None])), 60);
    assert_eq!(negative_ttl(&Some(vec![Some(30), None, Some(10)])), 10);
    assert_eq!(negative_ttl(&Some(vec![Some(7200)])), 3600);
}

#[test]
fn smallest_ttl_of_answers() {
    let mut m = query(1, "a.test.", RecordType::A);
    assert_eq!(smallest_ttl(&m), 60);
    m.add_answer(a_record("a.test.", 300, [1, 1, 1, 1]));
    m.add_answer(a_record("a.test.", 30, [1, 1, 1, 2]));
    assert_eq!(smallest_ttl(&m), 30);
}

#[test]
fn resolve_errors_set_response_code() {
    let cache = DnsCache::new();
    let q = query(1, "gone.test.", RecordType::A);
    let key = request_key(&q).unwrap();
    let mut r = upstream_base(&q);
    assert!(handle_resolve_error(&cache, key.clone(), ResolveFailure::Timeout, &mut r, 1).is_ok());
    assert_eq!(r.metadata.response_code, ResponseCode::ServFail);
    let mut r2 = upstream_base(&q);
    assert!(matches!(
        handle_resolve_error(&cache, key.clone(), ResolveFailure::Other, &mut r2, 1),
        Err(ProcessError::Upstream)
    ));
    let mut r3 = upstream_base(&q);
    handle_resolve_error(
        &cache,
        key,
        ResolveFailure::NoRecords { response_code: 3, authorities: Some(vec![Some(120)]) },
        &mut r3,
        1,
    )
    .unwrap();
    assert_eq!(r3.metadata.response_code, ResponseCode::NXDomain);
}

#[test]
fn request_without_question_has_no_key() {
    let m = Message::new(1, MessageType::Query, OpCode::Query);
    assert!(matches!(request_key(&m), Err(ProcessError::NoQuestion)));
    let k = cache_key(&query(1, "WWW.Example.COM.", RecordType::A), 0);
    assert_eq!(k.name, "www.example.com.");
    assert_eq!(k.record_type, 1);
}

#[test]
fn resolved_answer_is_served_from_cache() {
    let cache = DnsCache::new();
    let q = query(11, "cached.test.", RecordType::A);
    let key = request_key(&q).unwrap();
    let mut records = Message::new(0, MessageType::Query, OpCode::Query);
    records.add_answer(a_record("cached.test.", 120, [9, 9, 9, 9]));
    let mut response = upstream_base(&q);
    let ttl = handle_resolved(&cache, key.clone(), records, &mut response, 4);
    assert_eq!(ttl, 120);
    assert_eq!(response.answers.len(), 1);
    let again = query(12, "cached.test.", RecordType::A);
    let hit = try_cache(&cache, &again, &key, 4).expect("fresh entry");
    assert_eq!(hit.metadata.id, 12);
    assert_eq!(hit.answers.len(), 1);
    assert!(try_cache(&cache, &again, &key, 5).is_none());
}

#[test]
fn expired_or_stale_entries_are_misses() {
    let entry = ResolvedCacheEntry {
        records: Message::new(0, MessageType::Query, OpCode::Query),
        response_code: 0,
        expires_at: 100,
        rules_version: 2,
    };
    let (l, stale) = classify_entry(Some(CacheEntry::Resolved(entry.clone())), 50, 2);
    assert!(matches!(l, CacheLookup::Resolved(_)));
    assert!(!stale);
    let (l, stale) = classify_entry(Some(CacheEntry::Resolved(entry.clone())), 100, 2);
    assert!(matches!(l, CacheLookup::Miss));
    assert!(stale);
    let (l, stale) = classify_entry(Some(CacheEntry::Resolved(entry)), 50, 3);
    assert!(matches!(l, CacheLookup::Miss));
    assert!(stale);
    let (l, stale) = classify_entry(Some(CacheEntry::Blocked(2)), 50, 2);
    assert!(matches!(l, CacheLookup::Blocked));
    assert!(!stale);
    let (l, stale) = classify_entry(None, 50, 2);
    assert!(matches!(l, CacheLookup::Miss));
    assert!(!stale);
}

#[test]
fn response_cache_patches_id() {
    assert_eq!(patch_id(vec![0, 0, 7], 0x1234), vec![0x12, 0x34, 7]);
    assert_eq!(patch_id(vec![5], 0x1234), vec![5]);
    let cache = ResponseCache::new(10);
    let key = ("x.test".to_string(), 1u16);
    cache.insert(key.clone(), vec![0, 1, 2, 3], 60);
    assert_eq!(cache.get_with_id(&key, 0xabcd), Some(vec![0xab, 0xcd, 2, 3]));
    let key2 = ("y.test".to_string(), 1u16);
    cache.insert(key2.clone(), vec![0, 1], 0);
    assert_eq!(cache.get_with_id(&key2, 1), None);
}

#[test]
fn engine_blocks_listed_host_only() {
    let engine = build_engine(vec!["||ads.example.com^".to_string()]);
    let blocked = query(1, "ads.example.com.", RecordType::A);
    let allowed = query(2, "news.example.org.", RecordType::A);
    assert_eq!(lookup_block(&engine, &blocked, BlockOrigin::Plain), BlockResult::Block);
    assert_eq!(lookup_block(&engine, &allowed, BlockOrigin::DoH), BlockResult::Allow);
    let with_exception = build_engine(vec!["||ads.example.com^\n@@||ads.example.com^".to_string()]);
    assert_eq!(lookup_block(&with_exception, &blocked, BlockOrigin::Plain), BlockResult::Allow);
}

#[test]
fn engine_verdict_is_cached_per_rules_version() {
    let engine = build_engine(vec!["||ads.example.com^".to_string()]);
    let cache = DnsCache::new();
    let blocked = query(1, "ads.example.com.", RecordType::A);
    assert_eq!(lookup_block_cached(&engine, &cache, &blocked, BlockOrigin::DoT, 7), BlockResult::Block);
    let key = cache_key(&blocked, 0);
    assert!(cache.is_blocked(&key, 7));
    assert!(!cache.is_blocked(&key, 8));
}

#[test]
fn middleware_blocker_blocks_listed_host() {
    let blocker = Blocker::new(vec!["||tracker.test^".to_string()]);
    assert!(matches!(blocker.process(&query(1, "tracker.test.", RecordType::A)), MiddlewareResult::Block));
    assert!(matches!(blocker.process(&query(1, "fine.test.", RecordType::A)), MiddlewareResult::Next));
}

#[test]
fn query_domain_and_first_address() {
    let mut m = query(1, "www.example.com.", RecordType::A);
    assert_eq!(query_domain(&m), Some("www.example.com".to_string()));
    assert_eq!(first_answer_ip(&m), None);
    m.add_answer(a_record("www.example.com.", 60, [93, 184, 216, 34]));
    assert_eq!(first_answer_ip(&m), Some("93.184.216.34".to_string()));
    assert_eq!(ipv4_to_string(0x7f000001), "127.0.0.1");
    assert_eq!(query_domain(&Message::new(1, MessageType::Query, OpCode::Query)), None);
}

#[test]
fn restore_puts_back_original_question() {
    let original = query(1, "alias.test.", RecordType::A);
    let mut response = query(1, "target.test.", RecordType::A);
    response.add_answer(a_record("target.test.", 60, [1, 2, 3, 4]));
    restore_original_queries(&mut response, &original);
    assert_eq!(response.queries[0].name.to_string(), "alias.test.");
    assert_eq!(response.answers[0].name.to_string(), "alias.test.");
}

#[test]
fn first_address_of_ipv6_answer() {
    let mut m = query(1, "v6.example.com.", RecordType::AAAA);
    m.add_answer(Record::from_rdata(
        Name::from_str("v6.example.com.").unwrap(),
        60,
        RData::AAAA(AAAA::new(0x2001, 0xdb8, 0, 0, 0, 0, 0, 1)),
    ));
    assert_eq!(first_answer_ip(&m), Some("2001:db8::1".to_string()));
}

#[test]
fn unmatched_rewrite_changes_nothing() {
    let mut msg = query(4, "home.test.", RecordType::A);
    let rewrites = Some(vec![exact_rewrite("other.test", vec![RewriteAction::NXDOMAIN])]);
    let r = apply_rewrites(&rewrites, &mut msg).unwrap();
    assert!(!r.synthetic_response);
    assert!(!r.restore_original_queries);
    assert!(msg.answers.is_empty());
    assert_eq!(msg.queries[0].name.to_string(), "home.test.");
    assert_eq!(msg.metadata.response_code, ResponseCode::NoError);
}

#[test]
fn verdict_follows_cache_answers_then_engine() {
    // Nothing blocks: allowed.
    assert_eq!(scan_verdict(&vec![false, false], &vec![false, false]), (BlockResult::Allow, None));
    // The engine blocks the second question: its verdict is to be cached.
    assert_eq!(scan_verdict(&vec![false, false], &vec![false, true]), (BlockResult::Block, Some(1)));
    // The cache blocks the first question: nothing to cache.
    assert_eq!(scan_verdict(&vec![true], &vec![false]), (BlockResult::Block, None));
    // The cache blocks before the engine would: nothing to cache.
    assert_eq!(scan_verdict(&vec![false, true], &vec![false, false]), (BlockResult::Block, None));
}

#[test]
fn cached_lookup_stops_at_the_first_blocked_question() {
    let engine = build_engine(vec!["||ads.example.com^".to_string()]);
    let cache = DnsCache::new();
    let mut two = query(3, "cached.test.", RecordType::A);
    two.add_query(Query::query(Name::from_str("stale.test.").unwrap(), RecordType::A));
    let k0 = cache_key(&two, 0);
    let k1 = cache_key(&two, 1);
    cache.insert_blocked(k0, 7);
    cache.insert_blocked(k1.clone(), 3);
    assert_eq!(lookup_block_cached(&engine, &cache, &two, BlockOrigin::Plain, 7), BlockResult::Block);
    // The second question was never looked at, so its stale entry is still there.
    assert!(cache.is_cached(&k1));
    let clean = query(4, "news.example.org.", RecordType::A);
    assert_eq!(lookup_block_cached(&engine, &cache, &clean, BlockOrigin::Plain, 7), BlockResult::Allow);
}

#[test]
fn blocked_entry_checks_the_rules_version() {
    assert_eq!(blocked_entry(Some(CacheEntry::Blocked(5)), 5), (true, false));
    assert_eq!(blocked_entry(Some(CacheEntry::Blocked(4)), 5), (false, true));
    assert_eq!(blocked_entry(None, 5), (false, false));
}

#[test]
fn rewrites_keep_the_rest_of_the_message() {
    let mut base = query(9, "blocked.test.", RecordType::A);
    base.metadata.recursion_desired = true;
    base.metadata.checking_disabled = true;
    base.add_additional(a_record("extra.test.", 30, [9, 9, 9, 9]));

    // No rewrites: the message is left exactly as it was.
    let mut msg = base.clone();
    assert!(apply_rewrites(&None, &mut msg).is_ok());
    assert_eq!(msg, base);

    // A failing rewrite: the message is left exactly as it was.
    let mut msg = base.clone();
    let bad = Some(vec![exact_rewrite("blocked.test", vec![RewriteAction::Rewrite { value: "a".repeat(70) }])]);
    assert!(apply_rewrites(&bad, &mut msg).is_err());
    assert_eq!(msg, base);

    // NXDOMAIN: the same message turned into a response with code NXDOMAIN.
    let mut msg = base.clone();
    let nx = Some(vec![exact_rewrite("blocked.test", vec![RewriteAction::NXDOMAIN])]);
    assert!(apply_rewrites(&nx, &mut msg).unwrap().synthetic_response);
    let mut expected = base.clone().into_response();
    expected.metadata.response_code = ResponseCode::NXDomain;
    assert_eq!(msg, expected);
}

#[test]
fn request_without_questions_is_let_through() {
    let engine = build_engine(vec!["||ads.example.com^".to_string()]);
    let cache = DnsCache::new();
    let empty = Message::new(5, MessageType::Query, OpCode::Query);
    assert_eq!(lookup_block_cached(&engine, &cache, &empty, BlockOrigin::Plain, 1), BlockResult::Allow);
}
