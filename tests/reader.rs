use std::collections::{BTreeMap, HashMap};

use cacherz::namespace::MsgType;
use cacherz::read::{
    lookup_result, resolve_read, value_or_default, MsgContentType as ReadContent, MsgRead, ReadError,
    ReadPlan,
};
use cacherz::write::{prepare_write, MsgContentType, WriteConfirmation, WriteError, WriteMsg};

/// An ordered in-memory stand-in for the store, one map per namespace.
struct MemStore {
    namespaces: Vec<String>,
    prefix_length: usize,
    data: HashMap<String, BTreeMap<Vec<u8>, Vec<u8>>>,
}

impl MemStore {
    fn new(prefix_length: usize) -> MemStore {
        let namespaces: Vec<String> = ["events", "aggregations", "stats", "settings", "filters", "logs"]
            .iter()
            .map(|s| s.to_string())
            .collect();
        let data = namespaces.iter().map(|n| (n.clone(), BTreeMap::new())).collect();
        MemStore { namespaces, prefix_length, data }
    }

    fn write(&mut self, key: &str, value: &str, msg_type: MsgType) -> Result<WriteConfirmation, WriteError> {
        let msg = WriteMsg {
            msg_content: (key.to_string(), MsgContentType::PureString(value.to_string())),
            msg_type,
        };
        let p = prepare_write(&self.namespaces, &msg)?;
        self.data.get_mut(&p.namespace).unwrap().insert(p.key.clone(), p.value.clone());
        p.outcome(key.to_string(), Ok(()))
    }

    fn read(&self, msg: &MsgRead) -> Result<Vec<(String, String)>, ReadError> {
        let entries = match resolve_read(&self.namespaces, self.prefix_length, msg)? {
            ReadPlan::Scan { namespace, seek, mut scan } => {
                for (k, v) in self.data[&namespace].range(seek..) {
                    if !scan.offer(k.clone(), v.clone()) {
                        break;
                    }
                }
                scan.into_entries()
            }
            ReadPlan::Lookup { namespace, key } => {
                let found = self.data[&namespace].get(&key).cloned();
                vec![lookup_result(key, found)?]
            }
        };
        Ok(entries
            .into_iter()
            .map(|(k, v)| (String::from_utf8(k).unwrap(), String::from_utf8(v).unwrap()))
            .collect())
    }

    fn get_by_key(&self, namespace: MsgType, key: &str) -> Result<String, ReadError> {
        let msg = MsgRead { msg_content: ReadContent::Key(key.to_string()), msg_type: namespace };
        self.read(&msg).map(|mut e| e.remove(0).1)
    }
}

fn prefix(query: &str, size: usize) -> MsgRead {
    MsgRead { msg_content: ReadContent::Prefix(query.to_string(), size), msg_type: MsgType::Event }
}

#[test]
fn test_read_db_actor() {
    let mut store = MemStore::new(30);
    store.write("Trade----------UserAddr-------0x18-0x12", "123", MsgType::Event).unwrap();
    let response = store.read(&prefix("Trade----------UserAddr-------0x18-0x12", 1)).unwrap();
    assert_eq!(response[0].0, "Trade----------UserAddr-------0x18-0x12".to_string());
    assert_eq!(response[0].1, "123".to_string());

    store.write("Trade----------AddrUser-------0x19-0x01", "123", MsgType::Event).unwrap();
    let key = MsgRead {
        msg_content: ReadContent::Key("Trade----------AddrUser-------0x19-0x01".to_string()),
        msg_type: MsgType::Event,
    };
    let response = store.read(&key).unwrap();
    assert_eq!(response[0].0, "Trade----------AddrUser-------0x19-0x01".to_string());
    assert_eq!(response[0].1, "123".to_string());

    store.write("Trade----------UserAddr-------0x18-0x10", "123", MsgType::Event).unwrap();
    let response = store.read(&prefix("Trade----------UserAddr-------0x18-0x10", 2)).unwrap();
    assert_eq!(response[0].0, "Trade----------UserAddr-------0x18-0x10".to_string());
    assert_eq!(response[0].1, "123".to_string());
    assert_eq!(response[1].0, "Trade----------UserAddr-------0x18-0x12".to_string());
    assert_eq!(response[1].1, "123".to_string());

    store.write("Trade----------UserAddr-------0x18-0x09", "123", MsgType::Event).unwrap();
    let response = store.read(&prefix("Trade----------UserAddr-------0x18-0x09", 2)).unwrap();
    assert_eq!(response.len(), 2);
    assert_eq!(response[0].0, "Trade----------UserAddr-------0x18-0x09".to_string());
    assert_eq!(response[0].1, "123".to_string());
    assert_eq!(response[1].0, "Trade----------UserAddr-------0x18-0x10".to_string());
    assert_eq!(response[1].1, "123".to_string());
}

#[test]
fn test_reader_db() {
    let mut store = MemStore::new(15);
    let written = store.write("Trade----------UserAddr-------0x18-0x12", "{\"test\": 123}", MsgType::Event);
    assert_eq!(
        written,
        Ok(WriteConfirmation {
            namespace: "events".to_string(),
            key: "Trade----------UserAddr-------0x18-0x12".to_string()
        })
    );
    let response = store.get_by_key(MsgType::Event, "Trade----------UserAddr-------0x18-0x12").unwrap();
    assert_eq!(response, "{\"test\": 123}");

    let written = store.write("Trade----------", "{\"test\": \"0x18-0x14\"}", MsgType::Aggregation);
    assert_eq!(
        written,
        Ok(WriteConfirmation { namespace: "aggregations".to_string(), key: "Trade----------".to_string() })
    );
    let response = store.get_by_key(MsgType::Aggregation, "Trade----------").unwrap();
    assert_eq!(response, String::from("{\"test\": \"0x18-0x14\"}"));

    let params: serde_json::Value = serde_json::from_str(&response).unwrap();
    assert_eq!(params.as_object().unwrap().get("test").unwrap().as_str().unwrap(), "0x18-0x14");

    let missing = store.get_by_key(MsgType::Aggregation, "Tradee");
    assert_eq!(value_or_default(missing, String::from("123")), String::from("123"));

    store.write("Trade----------UserAddr-------0x18-0x20", "{\"test\": \"123\"}", MsgType::Event).unwrap();
    let response = store.read(&prefix("Trade----------UserAddr-------0x18-0x12", 10)).unwrap();
    assert_eq!(response.len(), 2);
}
