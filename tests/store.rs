use cacherz::engine::{OpenAction, OpenEvent, OpenStage, StoreOpening};
use cacherz::keys::get_prefix_from_query;
use cacherz::namespace::{msgtype_from_string, MsgType};
use cacherz::read::{lookup_result, resolve_read, value_or_default, MsgContentType as ReadContent, MsgRead, PrefixScan, ReadError, ReadPlan};
use cacherz::write::{prepare_write, MsgContentType, WriteConfirmation, WriteError, WriteMsg};

fn namespaces() -> Vec<String> {
    ["events", "aggregations", "stats", "settings", "filters", "logs"]
        .iter()
        .map(|s| s.to_string())
        .collect()
}

fn scan(prefix: Vec<u8>, max: usize, keys: &[&str]) -> Vec<String> {
    let mut scan = PrefixScan::new(prefix, max);
    if max > 0 {
        for k in keys {
            if !scan.offer(k.as_bytes().to_vec(), b"123".to_vec()) {
                break;
            }
        }
    }
    scan.into_entries()
        .into_iter()
        .map(|(k, _)| String::from_utf8(k).unwrap())
        .collect()
}

#[test]
fn namespace_names_round_trip() {
    for t in [MsgType::Event, MsgType::Aggregation, MsgType::Log, MsgType::Filter, MsgType::Setting, MsgType::Stat] {
        assert_eq!(msgtype_from_string(t.name()), Ok(t));
    }
    assert_eq!(MsgType::Event.name(), "events");
    assert_eq!(
        msgtype_from_string("log".to_string()),
        Err("Cannot convert log into msgtype".to_string())
    );
}

#[test]
fn write_is_routed_and_encoded() {
    let msg = WriteMsg {
        msg_content: ("Trade----------".to_string(), MsgContentType::Int32(-5)),
        msg_type: MsgType::Aggregation,
    };
    let p = prepare_write(&namespaces(), &msg).unwrap();
    assert_eq!(p.namespace, "aggregations");
    assert_eq!(p.key, b"Trade----------".to_vec());
    assert_eq!(p.value, b"-5".to_vec());
    let text = WriteMsg {
        msg_content: ("k".to_string(), MsgContentType::PureString("text-value".to_string())),
        msg_type: MsgType::Event,
    };
    assert_eq!(prepare_write(&namespaces(), &text).unwrap().value, b"text-value".to_vec());
    let big = WriteMsg {
        msg_content: ("k".to_string(), MsgContentType::UInt64(18446744073709551615)),
        msg_type: MsgType::Stat,
    };
    assert_eq!(prepare_write(&namespaces(), &big).unwrap().value, b"18446744073709551615".to_vec());
}

#[test]
fn write_to_unknown_namespace_fails() {
    let configured: Vec<String> = vec!["events".to_string()];
    let msg = WriteMsg {
        msg_content: ("k".to_string(), MsgContentType::UInt32(1)),
        msg_type: MsgType::Log,
    };
    match prepare_write(&configured, &msg) {
        Err(WriteError::UnknownNamespace(n)) => assert_eq!(n, "logs"),
        other => panic!("unexpected {:?}", other),
    }
}

#[test]
fn write_outcome_reports_store_answer() {
    let msg = WriteMsg {
        msg_content: ("k".to_string(), MsgContentType::Int64(9)),
        msg_type: MsgType::Event,
    };
    let p = prepare_write(&namespaces(), &msg).unwrap();
    assert_eq!(
        p.outcome("k".to_string(), Ok(())),
        Ok(WriteConfirmation { namespace: "events".to_string(), key: "k".to_string() })
    );
    assert_eq!(
        p.outcome("k".to_string(), Err("disk full".to_string())),
        Err(WriteError::StoreWriteError("disk full".to_string()))
    );
}

#[test]
fn prefix_scan_takes_first_matching_entries() {
    let k1 = "Trade----------UserAddr-------0x18-0x09";
    let k2 = "Trade----------UserAddr-------0x18-0x10";
    let k3 = "Trade----------UserAddr-------0x18-0x12";
    let prefix = get_prefix_from_query(k1.to_string(), 30);
    assert_eq!(scan(prefix, 2, &[k1, k2, k3]), vec![k1.to_string(), k2.to_string()]);
}

#[test]
fn prefix_scan_stops_at_other_prefix() {
    let prefix = get_prefix_from_query("Trade----------UserAddr-------0x18-0x12".to_string(), 15);
    let keys = [
        "Trade----------UserAddr-------0x18-0x12",
        "Trade----------UserAddr-------0x18-0x20",
        "Tradee---------UserAddr-------0x18-0x30",
        "Trade----------UserAddr-------0x18-0x40",
    ];
    assert_eq!(scan(prefix, 10, &keys).len(), 2);
}

#[test]
fn prefix_scan_of_nothing_is_empty() {
    let prefix = get_prefix_from_query("Trade".to_string(), 15);
    assert!(scan(prefix.clone(), 5, &[]).is_empty());
    assert!(scan(prefix, 0, &["Trade----------x"]).is_empty());
}

#[test]
fn prefix_scan_ignores_entries_after_stop() {
    let mut s = PrefixScan::new(b"ab".to_vec(), 1);
    assert!(!s.offer(b"ab1".to_vec(), b"v".to_vec()));
    assert!(!s.offer(b"ab2".to_vec(), b"v".to_vec()));
    assert_eq!(s.into_entries(), vec![(b"ab1".to_vec(), b"v".to_vec())]);
}

#[test]
fn read_is_routed_to_scan_or_lookup() {
    let msg = MsgRead {
        msg_content: ReadContent::Prefix("Trade----------UserAddr-------0x18-0x12".to_string(), 1),
        msg_type: MsgType::Event,
    };
    match resolve_read(&namespaces(), 15, &msg) {
        Ok(ReadPlan::Scan { namespace, seek, .. }) => {
            assert_eq!(namespace, "events");
            assert_eq!(seek, b"Trade----------UserAddr-------0x18-0x12".to_vec());
        }
        _ => panic!("expected a scan"),
    }
    let key = MsgRead {
        msg_content: ReadContent::Key("Trade----------AddrUser-------0x19-0x01".to_string()),
        msg_type: MsgType::Filter,
    };
    match resolve_read(&namespaces(), 15, &key) {
        Ok(ReadPlan::Lookup { namespace, key }) => {
            assert_eq!(namespace, "filters");
            assert_eq!(key, b"Trade----------AddrUser-------0x19-0x01".to_vec());
        }
        _ => panic!("expected a lookup"),
    }
    let unknown = MsgRead { msg_content: ReadContent::Key("k".to_string()), msg_type: MsgType::Log };
    assert!(matches!(
        resolve_read(&vec!["events".to_string()], 15, &unknown),
        Err(ReadError::UnknownNamespace(_))
    ));
}

#[test]
fn lookup_of_missing_key_is_not_found() {
    assert_eq!(
        lookup_result(b"k".to_vec(), Some(b"text-value".to_vec())),
        Ok((b"k".to_vec(), b"text-value".to_vec()))
    );
    assert_eq!(lookup_result(b"k".to_vec(), None), Err(ReadError::NotFound(b"k".to_vec())));
}

#[test]
fn missing_checkpoint_reads_as_default() {
    let missing = Err(ReadError::NotFound(b"UnknownEvent".to_vec()));
    assert_eq!(value_or_default(missing, "0x0-0x0".to_string()), "0x0-0x0");
    assert_eq!(value_or_default(Ok("0x18-0x14".to_string()), "0x0-0x0".to_string()), "0x18-0x14");
}

#[test]
fn fresh_store_creates_each_namespace() {
    let mut o = StoreOpening::new(vec!["events".to_string(), "filters".to_string()]);
    assert!(matches!(o.step(OpenEvent::Begin), Some(OpenAction::OpenDefault)));
    assert!(matches!(o.step(OpenEvent::Succeeded), Some(OpenAction::CreateNamespace(ref n)) if n == "events"));
    assert!(matches!(o.step(OpenEvent::Succeeded), Some(OpenAction::CreateNamespace(ref n)) if n == "filters"));
    assert!(matches!(o.step(OpenEvent::Succeeded), Some(OpenAction::Ready)));
    assert_eq!(o.stage, OpenStage::Ready);
}

#[test]
fn existing_store_is_opened_with_namespaces() {
    let mut o = StoreOpening::new(vec!["events".to_string()]);
    o.step(OpenEvent::Begin);
    match o.step(OpenEvent::Failed("column families not opened".to_string())) {
        Some(OpenAction::OpenWithNamespaces(ns)) => assert_eq!(ns, vec!["events".to_string()]),
        other => panic!("unexpected {:?}", other),
    }
    match o.step(OpenEvent::Failed("locked".to_string())) {
        Some(OpenAction::Fail(e)) => assert_eq!(e.message, "locked"),
        other => panic!("unexpected {:?}", other),
    }
    assert!(o.step(OpenEvent::Succeeded).is_none());
}

#[test]
fn text_value_comes_back_as_written() {
    let msg = WriteMsg {
        msg_content: ("key".to_string(), MsgContentType::PureString("text-value".to_string())),
        msg_type: MsgType::Event,
    };
    let p = prepare_write(&namespaces(), &msg).unwrap();
    let read = MsgRead { msg_content: ReadContent::Key("key".to_string()), msg_type: MsgType::Event };
    let key = match resolve_read(&namespaces(), 30, &read) {
        Ok(ReadPlan::Lookup { namespace, key }) => {
            assert_eq!(namespace, p.namespace);
            key
        }
        _ => panic!("expected a lookup"),
    };
    assert_eq!(key, p.key);
    let (_, value) = lookup_result(key, Some(p.value.clone())).unwrap();
    assert_eq!(String::from_utf8(value).unwrap(), "text-value");
}

#[test]
fn failed_creation_falls_back_to_opening_with_namespaces() {
    let mut o = StoreOpening::new(vec!["events".to_string(), "filters".to_string()]);
    o.step(OpenEvent::Begin);
    o.step(OpenEvent::Succeeded);
    match o.step(OpenEvent::Failed("cannot create".to_string())) {
        Some(OpenAction::OpenWithNamespaces(ns)) => assert_eq!(ns.len(), 2),
        other => panic!("unexpected {:?}", other),
    }
    assert!(matches!(o.step(OpenEvent::Succeeded), Some(OpenAction::Ready)));
    assert_eq!(o.stage, OpenStage::Ready);
}
