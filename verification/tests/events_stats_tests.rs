use dns_adblock::blocking::BlockOrigin;
use dns_adblock::cli::{task_of, CliTask, Commands, DeviceCommand, DnsCommand};
use dns_adblock::devices::DeviceType;
use dns_adblock::events::{match_known_device, query_event_for, registered_domain, QueryEvent};
use dns_adblock::stats::{
    days_ago, geo_of, like_pattern, needs_address_lookup, query_log_insert, query_log_offset,
    refresh_due, start_of_day, MMDBLookupResult,
};
use dns_adblock::watch::{classify_events, WatchEventKind};
use hickory_proto::op::{Message, MessageType, OpCode, Query};
use hickory_proto::rr::rdata::A;
use hickory_proto::rr::{Name, RData, Record, RecordType};
use std::str::FromStr;

#[test]
fn registered_domain_uses_public_suffix_list() {
    assert_eq!(registered_domain("a.b.example.co.uk"), "example.co.uk");
    assert_eq!(registered_domain("www.example.com"), "example.com");
}

#[test]
fn query_event_records_domain_and_address() {
    let mut m = Message::new(1, MessageType::Response, OpCode::Query);
    m.add_query(Query::query(Name::from_str("www.example.com.").unwrap(), RecordType::A));
    m.add_answer(Record::from_rdata(
        Name::from_str("www.example.com.").unwrap(),
        60,
        RData::A(A::new(1, 2, 3, 4)),
    ));
    let e = query_event_for(&m, "10.0.0.2".to_string(), false, BlockOrigin::DoH, 12, None).unwrap();
    assert_eq!(e.domain, "www.example.com");
    assert_eq!(e.registered_domain, "example.com");
    assert_eq!(e.resolved_ip, Some("1.2.3.4".to_string()));
    assert_eq!(e.block_origin, BlockOrigin::DoH);
    let b = query_event_for(&m, "10.0.0.2".to_string(), true, BlockOrigin::Plain, 1, None).unwrap();
    assert_eq!(b.resolved_ip, None);
    let empty = Message::new(1, MessageType::Response, OpCode::Query);
    assert!(query_event_for(&empty, "x".to_string(), false, BlockOrigin::Plain, 1, None).is_none());
}

#[test]
fn known_device_matches_ignoring_case() {
    let known = vec!["AbC12345".to_string(), "zzz".to_string()];
    assert_eq!(match_known_device(&known, "abc12345"), Some("AbC12345".to_string()));
    assert_eq!(match_known_device(&known, "nope"), None);
}

#[test]
fn time_windows() {
    assert_eq!(start_of_day(86400 * 3 + 5), 86400 * 3);
    assert_eq!(start_of_day(-1), -86400);
    assert_eq!(days_ago(1_000_000, 2), 1_000_000 - 2 * 86400);
}

#[test]
fn query_log_paging() {
    assert_eq!(query_log_offset(1, 50), 0);
    assert_eq!(query_log_offset(3, 20), 40);
    assert_eq!(like_pattern("ads"), "%ads%");
}

#[test]
fn query_log_row() {
    let event = QueryEvent::new(
        "ads.example.com".to_string(),
        "10.0.0.2".to_string(),
        None,
        true,
        BlockOrigin::DoT,
        7,
        Some("LAPTOP01".to_string()),
    );
    assert!(needs_address_lookup(&event));
    let geo = Some(MMDBLookupResult { country: Some("DE".to_string()), asn_org: Some("Hetzner".to_string()) });
    let row = query_log_insert(&event, &vec!["laptop01".to_string()], geo);
    assert_eq!(row.block_origin, "dot");
    assert_eq!(row.hits_blocked, 1);
    assert_eq!(row.device_id, Some("laptop01".to_string()));
    assert_eq!(row.country_code, Some("DE".to_string()));
    assert_eq!(row.company_name, Some("Hetzner".to_string()));
    assert_eq!(row.registered_domain, "example.com");
    let (c, o) = geo_of(None);
    assert!(c.is_none() && o.is_none());
}

#[test]
fn mmdb_refresh() {
    assert!(refresh_due(None));
    assert!(!refresh_due(Some(100)));
    assert!(refresh_due(Some(86400)));
}

#[test]
fn watcher_events() {
    let r = classify_events(&vec![WatchEventKind::Other, WatchEventKind::Modify]);
    assert!(r.reload && !r.removed);
    let r = classify_events(&vec![WatchEventKind::Remove]);
    assert!(!r.reload && r.removed);
    let r = classify_events(&vec![]);
    assert!(!r.reload && !r.removed);
}

#[test]
fn cli_tasks() {
    assert!(matches!(task_of(Commands::Devices { command: DeviceCommand::List }), CliTask::ListDevices));
    assert!(matches!(
        task_of(Commands::Devices { command: DeviceCommand::Delete { id: "x".to_string() } }),
        CliTask::NotImplemented
    ));
    match task_of(Commands::Devices {
        command: DeviceCommand::New { name: "PC".to_string(), device_type: DeviceType::Windows },
    }) {
        CliTask::NewDevice { name, device_type } => {
            assert_eq!(name, "PC");
            assert_eq!(device_type, DeviceType::Windows);
        }
        _ => panic!("new device"),
    }
    match task_of(Commands::Dns { command: DnsCommand::Configure { device: None, no_doh: true } }) {
        CliTask::SetDns { device, no_doh } => {
            assert!(device.is_none());
            assert!(no_doh);
        }
        _ => panic!("dns set"),
    }
}
