use cacherz::decode::{DecodeError, EventResult, Param};
use cacherz::ingest::{process_batch, step, Command, EventDef, Input, Phase, WorkerConfig, WorkerState};
use cacherz::position::{block_part, log_part, parse_quantity, position_numbers};
use cacherz::namespace::MsgType;
use cacherz::write::MsgContentType;

const ADDR: &str = "2222222222222222222222222222222222222222";

fn config(webhook: Option<&str>) -> WorkerConfig {
    WorkerConfig {
        event: EventDef {
            name: "Transfer".to_string(),
            topic: "ddf252ad".to_string(),
            params: vec![
                Param { name: "from".to_string(), sol_type: "address".to_string(), is_indexed: true },
                Param { name: "value".to_string(), sol_type: "uint256".to_string(), is_indexed: false },
            ],
        },
        name_width: 30,
        webhook: webhook.map(|s| s.to_string()),
    }
}

fn log(block: &str, index: &str, data: &str) -> EventResult {
    EventResult {
        logIndex: index.to_string(),
        blockNumber: block.to_string(),
        blockHash: "0xbb".to_string(),
        transactionHash: "0xcc".to_string(),
        transactionIndex: "0x0".to_string(),
        address: "0xdd".to_string(),
        data: data.to_string(),
        topics: vec!["0xddf252ad".to_string(), format!("0x{:0>64}", ADDR)],
    }
}

fn good(block: &str, index: &str, value: u64) -> EventResult {
    log(block, index, &format!("0x{:064x}", value))
}

fn write_of(c: &Command) -> (MsgType, String, String) {
    match c {
        Command::Write(m) => match &m.msg_content.1 {
            MsgContentType::PureString(v) => (m.msg_type, m.msg_content.0.clone(), v.clone()),
            other => panic!("unexpected content {:?}", other),
        },
        other => panic!("expected a write, got {:?}", other),
    }
}

fn polling(checkpoint: &str) -> WorkerState {
    WorkerState { phase: Phase::Polling("0xf1".to_string()), checkpoint: checkpoint.to_string() }
}

fn name_key() -> String {
    format!("{:-<30}", "Transfer")
}

#[test]
fn start_reads_the_checkpoint() {
    let (s, cs) = step(&config(None), WorkerState::new(), Input::Start);
    assert!(matches!(s.phase, Phase::Uninitialized));
    assert_eq!(cs.len(), 1);
    assert!(matches!(&cs[0], Command::LoadCheckpoint { key } if *key == name_key()));
}

#[test]
fn missing_checkpoint_starts_from_block_zero() {
    let (s, cs) = step(&config(None), WorkerState::new(), Input::CheckpointLoaded(None));
    assert!(matches!(s.phase, Phase::AcquiringFilter));
    assert_eq!(s.checkpoint, "0x0-0x0");
    assert!(matches!(&cs[0], Command::CreateFilter { topic, from_block } if topic == "ddf252ad" && from_block == "0x0"));
}

#[test]
fn stored_checkpoint_sets_the_filter_start() {
    let record = "{\"last_block\": \"0x18-0x9\", \"ts\": 5}".to_string();
    let (s, cs) = step(&config(None), WorkerState::new(), Input::CheckpointLoaded(Some(record)));
    assert_eq!(s.checkpoint, "0x18-0x9");
    assert!(matches!(&cs[0], Command::CreateFilter { from_block, .. } if from_block == "0x18"));
}

#[test]
fn created_filter_is_stored_then_polled() {
    let s = WorkerState { phase: Phase::AcquiringFilter, checkpoint: "0x0-0x0".to_string() };
    let (s, cs) = step(&config(None), s, Input::FilterCreated("0xf1".to_string()));
    assert!(matches!(&s.phase, Phase::Polling(id) if id == "0xf1"));
    assert_eq!(write_of(&cs[0]), (MsgType::Filter, name_key(), "0xf1".to_string()));
    assert!(matches!(cs[1], Command::Wait { millis: 1000 }));
    let (_, cs) = step(&config(None), s, Input::Tick);
    assert!(matches!(&cs[0], Command::Poll { filter_id } if filter_id == "0xf1"));
}

#[test]
fn refused_filter_falls_back_to_stored_one() {
    let s = WorkerState { phase: Phase::AcquiringFilter, checkpoint: "0x5-0x1".to_string() };
    let (s, cs) = step(&config(None), s, Input::FilterFailed);
    assert!(matches!(s.phase, Phase::Recovering));
    assert!(matches!(&cs[0], Command::LoadFilter { key } if *key == name_key()));
    let (found, cs) = step(&config(None), s.clone(), Input::StoredFilter(Some("0xold".to_string())));
    assert!(matches!(&found.phase, Phase::Polling(id) if id == "0xold"));
    assert!(matches!(cs[0], Command::Wait { .. }));
    let (retry, cs) = step(&config(None), s, Input::StoredFilter(None));
    assert!(matches!(retry.phase, Phase::AcquiringFilter));
    assert!(matches!(cs[0], Command::Wait { .. }));
    let (_, cs) = step(&config(None), retry, Input::Tick);
    assert!(matches!(&cs[0], Command::CreateFilter { from_block, .. } if from_block == "0x5"));
}

#[test]
fn failed_poll_recreates_the_filter() {
    let (s, cs) = step(&config(None), polling("0x1a-0x2"), Input::PollFailed);
    assert!(matches!(s.phase, Phase::AcquiringFilter));
    assert_eq!(s.checkpoint, "0x1a-0x2");
    assert!(matches!(&cs[0], Command::CreateFilter { from_block, .. } if from_block == "0x1a"));
}

#[test]
fn poll_writes_records_checkpoint_and_notice() {
    let entries = vec![good("0x18", "0x1", 100), good("0x1a", "0x2", 7)];
    let input = Input::Polled { entries, now_ms: 1000 };
    let (s, cs) = step(&config(Some("http://hook")), polling("0x0-0x0"), input);
    assert_eq!(s.checkpoint, "0x1a-0x2");
    assert_eq!(cs.len(), 5);
    let first = write_of(&cs[0]);
    assert_eq!(first.0, MsgType::Event);
    assert_eq!(first.1, format!("{:-<30}{:-<15}{:-<15}", "Transfer", "0x18", "0x1"));
    assert_eq!(first.2, format!("{{\"from\":\"{}\",\"value\":\"64\"}}", ADDR));
    let second = write_of(&cs[1]);
    assert_eq!(
        write_of(&cs[2]),
        (MsgType::Aggregation, name_key(), "{\"last_block\": \"0x1a-0x2\", \"ts\": 1000}".to_string())
    );
    match &cs[3] {
        Command::Notify { url, key, payload } => {
            assert_eq!(url, "http://hook");
            assert_eq!(*key, second.1);
            assert_eq!(*payload, second.2);
        }
        other => panic!("expected a notice, got {:?}", other),
    }
    assert!(matches!(cs[4], Command::Wait { millis: 1000 }));
}

#[test]
fn empty_poll_keeps_checkpoint() {
    let input = Input::Polled { entries: Vec::new(), now_ms: 42 };
    let (s, cs) = step(&config(Some("http://hook")), polling("0x3-0x4"), input);
    assert_eq!(s.checkpoint, "0x3-0x4");
    assert_eq!(cs.len(), 2);
    assert_eq!(
        write_of(&cs[0]),
        (MsgType::Aggregation, name_key(), "{\"last_block\": \"0x3-0x4\", \"ts\": 42}".to_string())
    );
}

#[test]
fn malformed_entry_is_skipped_in_its_batch() {
    let bad = log("0x19", "0x0", &format!("0x{}", "zz".repeat(32)));
    let entries = vec![good("0x18", "0x1", 1), bad, good("0x1a", "0x2", 3)];
    let (commands, last) = process_batch(&config(None), &entries);
    assert_eq!(commands.len(), 3);
    let writes: Vec<_> = commands.iter().filter(|c| matches!(c, Command::Write(_))).collect();
    assert_eq!(writes.len(), 2);
    assert!(matches!(
        &commands[1],
        Command::DecodeFailed { block, log, error: DecodeError::MalformedHex } if block == "0x19" && log == "0x0"
    ));
    assert_eq!(write_of(&commands[2]).1, last.unwrap().0);
}

#[test]
fn redelivered_entry_is_written_identically() {
    let e = good("0x18", "0x1", 5);
    let (first, _) = process_batch(&config(None), &vec![e.clone(), e.clone()]);
    let (again, _) = process_batch(&config(None), &vec![e]);
    assert_eq!(write_of(&first[0]), write_of(&first[1]));
    assert_eq!(write_of(&first[0]), write_of(&again[0]));
}

#[test]
fn block_part_is_text_before_dash() {
    assert_eq!(block_part("0x18-0x9"), "0x18");
    assert_eq!(block_part("0x18"), "0x18");
    assert_eq!(block_part("-0x9"), "");
}

#[test]
fn positions_read_as_numbers() {
    assert_eq!(log_part("0x18-0x9"), Some("0x9".to_string()));
    assert_eq!(log_part("0x18"), None);
    assert_eq!(parse_quantity("0x1a"), Some(26));
    assert_eq!(parse_quantity("0xFF"), Some(255));
    assert_eq!(parse_quantity("0x"), None);
    assert_eq!(parse_quantity("1a"), None);
    assert_eq!(parse_quantity("0x1g"), None);
    assert_eq!(parse_quantity("0xffffffffffffffff"), Some(u64::MAX));
    assert_eq!(parse_quantity("0x10000000000000000"), None);
    assert_eq!(position_numbers("0x18-0x9"), Some((24, 9)));
    assert_eq!(position_numbers("0x0-0x0"), Some((0, 0)));
    assert_eq!(position_numbers("0x18"), None);
}

#[test]
fn checkpoint_does_not_move_back() {
    let entries = vec![good("0x9", "0x1", 1), good("0x20", "0x0", 2), good("0x1f", "0x5", 3)];
    let input = Input::Polled { entries, now_ms: 7 };
    let (s, _) = step(&config(None), polling("0x18-0x2"), input);
    assert_eq!(s.checkpoint, "0x20-0x0");
    let older = vec![good("0x1", "0x0", 1)];
    let (s, cs) = step(&config(None), polling("0x18-0x2"), Input::Polled { entries: older, now_ms: 8 });
    assert_eq!(s.checkpoint, "0x18-0x2");
    assert_eq!(write_of(&cs[1]).2, "{\"last_block\": \"0x18-0x2\", \"ts\": 8}");
}
