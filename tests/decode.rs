use cacherz::decode::{is_supported_type_name, DecodeError, EventResult, Param};
use cacherz::json::{checkpoint_position, checkpoint_record, fields_json, rpc_result};

const ADDR: &str = "1111111111111111111111111111111111111111";

fn entry(data: &str, topics: Vec<String>) -> EventResult {
    EventResult {
        logIndex: "0x1".to_string(),
        blockNumber: "0x18".to_string(),
        blockHash: "0xbb".to_string(),
        transactionHash: "0xcc".to_string(),
        transactionIndex: "0x0".to_string(),
        address: "0xdd".to_string(),
        data: data.to_string(),
        topics,
    }
}

fn slot(value: u64) -> String {
    format!("{:064x}", value)
}

fn addr_topic() -> String {
    format!("0x{:0>64}", ADDR)
}

fn params() -> Vec<Param> {
    vec![
        Param { name: "from".to_string(), sol_type: "address".to_string(), is_indexed: true },
        Param { name: "value".to_string(), sol_type: "uint256".to_string(), is_indexed: false },
    ]
}

#[test]
fn indexed_and_data_values_are_put_back_in_order() {
    let e = entry(&format!("0x{}", slot(100)), vec!["0xsig".to_string(), addr_topic()]);
    let hex = e.payload_hex(&params()).unwrap();
    assert_eq!(hex, format!("{:0>64}{}", ADDR, slot(100)));
    let fields = e.decode_vector(params()).unwrap();
    assert_eq!(
        fields,
        vec![("from".to_string(), ADDR.to_string()), ("value".to_string(), "64".to_string())]
    );
}

#[test]
fn data_slots_come_before_a_later_topic() {
    let reversed = vec![
        Param { name: "value".to_string(), sol_type: "uint256".to_string(), is_indexed: false },
        Param { name: "from".to_string(), sol_type: "address".to_string(), is_indexed: true },
    ];
    let e = entry(&format!("0x{}", slot(1)), vec!["0xsig".to_string(), addr_topic()]);
    let fields = e.decode_vector(reversed).unwrap();
    assert_eq!(fields[0], ("value".to_string(), "1".to_string()));
    assert_eq!(fields[1], ("from".to_string(), ADDR.to_string()));
}

#[test]
fn decoded_fields_as_mapping() {
    let e = entry(&format!("0x{}", slot(255)), vec!["0xsig".to_string(), addr_topic()]);
    let m = e.decode_hashmap(params()).unwrap();
    assert_eq!(m.len(), 2);
    assert_eq!(m.get("value"), Some(&"ff".to_string()));
    assert_eq!(m.get("from"), Some(&ADDR.to_string()));
}

#[test]
fn malformed_hex_is_reported() {
    let e = entry(&format!("0x{}", "zz".repeat(32)), vec!["0xsig".to_string(), addr_topic()]);
    assert_eq!(e.decode_vector(params()).unwrap_err(), DecodeError::MalformedHex);
    let no_prefix = entry(&slot(1), vec!["0xsig".to_string(), addr_topic()]);
    assert_eq!(no_prefix.decode_vector(params()).unwrap_err(), DecodeError::MalformedHex);
}

#[test]
fn missing_topic_or_slot_is_a_count_mismatch() {
    let no_topic = entry(&format!("0x{}", slot(1)), vec!["0xsig".to_string()]);
    assert_eq!(no_topic.decode_vector(params()).unwrap_err(), DecodeError::ParamCountMismatch);
    let short = entry("0x0101", vec!["0xsig".to_string(), addr_topic()]);
    assert_eq!(short.decode_vector(params()).unwrap_err(), DecodeError::ParamCountMismatch);
}

#[test]
fn undecodable_type_is_a_type_decode_failure() {
    let array = vec![Param { name: "x".to_string(), sol_type: "uint256[]".to_string(), is_indexed: false }];
    let e = entry(&format!("0x{}", slot(1)), vec!["0xsig".to_string()]);
    assert_eq!(e.clone().decode_vector(array).unwrap_err(), DecodeError::TypeDecode);
    let text = vec![Param { name: "x".to_string(), sol_type: "string".to_string(), is_indexed: false }];
    assert_eq!(e.decode_vector(text).unwrap_err(), DecodeError::TypeDecode);
}

#[test]
fn fields_are_written_as_a_json_object() {
    let fields = vec![
        ("from".to_string(), ADDR.to_string()),
        ("note".to_string(), "say \"hi\"".to_string()),
    ];
    assert_eq!(
        fields_json(&fields),
        format!("{{\"from\":\"{}\",\"note\":\"say \\\"hi\\\"\"}}", ADDR)
    );
    assert_eq!(fields_json(&Vec::new()), "{}");
}

#[test]
fn checkpoint_record_round_trip() {
    let record = checkpoint_record("0x18-0x9", 1700000000123);
    assert_eq!(record, "{\"last_block\": \"0x18-0x9\", \"ts\": 1700000000123}");
    assert_eq!(checkpoint_position(&record), Some("0x18-0x9".to_string()));
    assert_eq!(checkpoint_position("{\"test\": 123}"), None);
    assert_eq!(checkpoint_position("not json"), None);
}

#[test]
fn type_names_handed_to_the_decoder() {
    assert!(is_supported_type_name("uint256"));
    assert!(is_supported_type_name("bytes32"));
    assert!(!is_supported_type_name("address[]"));
    assert!(!is_supported_type_name("(uint256,bool)"));
    assert!(!is_supported_type_name("bytes123456789012"));
}

#[test]
fn entry_without_signature_topic_does_not_decode() {
    let plain = vec![Param { name: "value".to_string(), sol_type: "uint256".to_string(), is_indexed: false }];
    let e = entry(&format!("0x{}", slot(1)), Vec::new());
    assert_eq!(e.decode_vector(plain).unwrap_err(), DecodeError::ParamCountMismatch);
}

#[test]
fn control_characters_are_escaped() {
    let fields = vec![("a\\b".to_string(), "x\n\u{1}\u{8}y".to_string())];
    assert_eq!(fields_json(&fields), "{\"a\\\\b\":\"x\\n\\u0001\\by\"}");
}

#[test]
fn rpc_answer_result_is_read() {
    assert_eq!(rpc_result("{\"jsonrpc\":\"2.0\",\"id\":1,\"result\":\"0x1f\"}"), Some("0x1f".to_string()));
    assert_eq!(rpc_result("{\"error\":{\"code\":-32000}}"), None);
}
