//! The namespaces of the store and their names.

use vstd::prelude::*;
use vstd::string::*;

verus! {

/// A namespace of the store.
#[derive(Clone, Copy, Debug, PartialEq, Eq, Structural)]
pub enum MsgType {
    Event,
    Aggregation,
    Log,
    Filter,
    Setting,
    Stat,
}

/// The name under which a namespace is kept in the store.
pub open spec fn namespace_name(t: MsgType) -> Seq<char> {
    match t {
        MsgType::Event => "events"@,
        MsgType::Aggregation => "aggregations"@,
        MsgType::Log => "logs"@,
        MsgType::Filter => "filters"@,
        MsgType::Setting => "settings"@,
        MsgType::Stat => "stats"@,
    }
}

/// Whether `names` holds `name`.
pub open spec fn names_contain(names: Seq<Seq<char>>, name: Seq<char>) -> bool {
    exists|i: int| 0 <= i < names.len() && names[i] == name
}

/// Whether `s` is the text of the literal `lit`.
pub fn text_is(s: &String, lit: &str) -> (r: bool)
    ensures
        r == (s@ == lit@),
{
    let other = String::from_str(lit);
    s.eq(&other)
}

impl MsgType {
    /// The name of this namespace in the store.
    pub fn name(&self) -> (r: String)
        ensures
            r@ == namespace_name(*self),
    {
        match self {
            MsgType::Event => String::from_str("events"),
            MsgType::Aggregation => String::from_str("aggregations"),
            MsgType::Log => String::from_str("logs"),
            MsgType::Filter => String::from_str("filters"),
            MsgType::Setting => String::from_str("settings"),
            MsgType::Stat => String::from_str("stats"),
        }
    }
}

/// The namespace called `msg_type`; an error naming it when no namespace has
/// that name.
pub fn msgtype_from_string(msg_type: String) -> (r: Result<MsgType, String>)
    ensures
        match r {
            Ok(t) => namespace_name(t) == msg_type@,
            Err(e) => (forall|t: MsgType| namespace_name(t) != msg_type@) && e@ == "Cannot convert "@
                + msg_type@ + " into msgtype"@,
        },
{
    proof {
        reveal_strlit("events");
        reveal_strlit("aggregations");
        reveal_strlit("logs");
        reveal_strlit("filters");
        reveal_strlit("settings");
        reveal_strlit("stats");
    }
    if text_is(&msg_type, "events") {
        Ok(MsgType::Event)
    } else if text_is(&msg_type, "aggregations") {
        Ok(MsgType::Aggregation)
    } else if text_is(&msg_type, "logs") {
        Ok(MsgType::Log)
    } else if text_is(&msg_type, "filters") {
        Ok(MsgType::Filter)
    } else if text_is(&msg_type, "settings") {
        Ok(MsgType::Setting)
    } else if text_is(&msg_type, "stats") {
        Ok(MsgType::Stat)
    } else {
        let mut message = String::from_str("Cannot convert ");
        message.append(msg_type.as_str());
        message.append(" into msgtype");
        Err(message)
    }
}

/// Whether `configured` holds `name`.
pub fn is_configured(configured: &Vec<String>, name: &String) -> (r: bool)
    ensures
        r == names_contain(configured.deep_view(), name@),
{
    let mut i: usize = 0;
    while i < configured.len()
        invariant
            i <= configured@.len(),
            forall|j: int| 0 <= j < i ==> configured.deep_view()[j] != name@,
        decreases configured.len() - i,
    {
        if configured[i].eq(name) {
            assert(configured.deep_view()[i as int] == name@);
            return true;
        }
        i = i + 1;
    }
    false
}

} // verus!
