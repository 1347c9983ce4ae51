//! The write side of the store: which namespace a write goes to and the bytes
//! that are put there.

use vstd::prelude::*;
use vstd::string::*;
use vstd::utf8::encode_utf8;

use crate::decimal::{i64_to_decimal, int_decimal, nat_decimal, u64_to_decimal};
use crate::namespace::{is_configured, names_contain, namespace_name, MsgType};

verus! {

/// A value to store: text is kept as it is, integers as decimal text.
#[derive(Clone, Debug)]
pub enum MsgContentType {
    PureString(String),
    Int32(i32),
    Int64(i64),
    UInt32(u32),
    UInt64(u64),
}

/// The text under which a value is stored.
pub open spec fn content_text(c: MsgContentType) -> Seq<char> {
    match c {
        MsgContentType::PureString(s) => s@,
        MsgContentType::Int32(i) => int_decimal(i as int),
        MsgContentType::Int64(i) => int_decimal(i as int),
        MsgContentType::UInt32(u) => nat_decimal(u as nat),
        MsgContentType::UInt64(u) => nat_decimal(u as nat),
    }
}

impl MsgContentType {
    /// The text under which this value is stored.
    pub fn text(&self) -> (r: String)
        ensures
            r@ == content_text(*self),
    {
        match self {
            MsgContentType::PureString(s) => s.clone(),
            MsgContentType::Int32(i) => i64_to_decimal(*i as i64),
            MsgContentType::Int64(i) => i64_to_decimal(*i),
            MsgContentType::UInt32(u) => u64_to_decimal(*u as u64),
            MsgContentType::UInt64(u) => u64_to_decimal(*u),
        }
    }
}

/// A request to store a value under a key in a namespace.
#[derive(Debug)]
pub struct WriteMsg {
    pub msg_content: (String, MsgContentType),
    pub msg_type: MsgType,
}

/// Why a write was not done.
#[derive(Clone, Debug, PartialEq, Eq)]
pub enum WriteError {
    /// The namespace was not configured when the store was opened.
    UnknownNamespace(String),
    /// The store refused the write, with its message.
    StoreWriteError(String),
}

/// A write ready for the store: the namespace's name and the bytes of the key
/// and of the value.
#[derive(Clone, Debug)]
pub struct PreparedWrite {
    pub namespace: String,
    pub key: Vec<u8>,
    pub value: Vec<u8>,
}

/// What a done write reports: where it went.
#[derive(Clone, Debug, PartialEq, Eq)]
pub struct WriteConfirmation {
    pub namespace: String,
    pub key: String,
}

/// Routes `msg` to its namespace and turns its key and value into bytes; an
/// `UnknownNamespace` error when the namespace is not among `configured`.
pub fn prepare_write(configured: &Vec<String>, msg: &WriteMsg) -> (r: Result<
    PreparedWrite,
    WriteError,
>)
    ensures
        match r {
            Ok(p) => {
                &&& names_contain(configured.deep_view(), namespace_name(msg.msg_type))
                &&& p.namespace@ == namespace_name(msg.msg_type)
                &&& p.key@ == encode_utf8(msg.msg_content.0@)
                &&& p.value@ == encode_utf8(content_text(msg.msg_content.1))
            },
            Err(e) => {
                &&& !names_contain(configured.deep_view(), namespace_name(msg.msg_type))
                &&& e matches WriteError::UnknownNamespace(n) && n@ == namespace_name(msg.msg_type)
            },
        },
{
    let namespace = msg.msg_type.name();
    if !is_configured(configured, &namespace) {
        return Err(WriteError::UnknownNamespace(namespace));
    }
    let key = msg.msg_content.0.as_str().as_bytes_vec();
    let text = msg.msg_content.1.text();
    let value = text.as_str().as_bytes_vec();
    Ok(PreparedWrite { namespace, key, value })
}

impl PreparedWrite {
    /// What the write reports once the store has answered `put`.
    pub fn outcome(&self, key: String, put: Result<(), String>) -> (r: Result<
        WriteConfirmation,
        WriteError,
    >)
        ensures
            match put {
                Ok(()) => r == Ok::<WriteConfirmation, WriteError>(
                    WriteConfirmation { namespace: self.namespace, key },
                ),
                Err(e) => r == Err::<WriteConfirmation, WriteError>(WriteError::StoreWriteError(e)),
            },
    {
        match put {
            Ok(()) => Ok(WriteConfirmation { namespace: self.namespace.clone(), key }),
            Err(e) => Err(WriteError::StoreWriteError(e)),
        }
    }
}

} // verus!
