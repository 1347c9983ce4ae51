//! The read side of the store: point lookups and prefix scans.

use vstd::prelude::*;
use vstd::string::*;
use vstd::utf8::encode_utf8;

use crate::keys::{get_prefix_from_query, pad_seq, pad_text, prefix_matches, PAD_BYTE};
use crate::namespace::{is_configured, names_contain, namespace_name, MsgType};

verus! {

/// What a read asks for: the entries from a key on that share its prefix, at
/// most so many of them; or the entry under one key.
#[derive(Clone, Debug)]
pub enum MsgContentType {
    Prefix(String, usize),
    Key(String),
}

/// A read of one namespace.
#[derive(Debug)]
pub struct MsgRead {
    pub msg_content: MsgContentType,
    pub msg_type: MsgType,
}

/// Why a read gave nothing.
#[derive(Clone, Debug, PartialEq, Eq)]
pub enum ReadError {
    /// The namespace was not configured when the store was opened.
    UnknownNamespace(String),
    /// No entry is stored under the key.
    NotFound(Vec<u8>),
    /// The store failed to answer, with its message.
    StoreReadError(String),
}

/// A stored filter handle and the event it belongs to.
#[derive(Clone, Debug)]
pub struct Filter {
    pub name: String,
    pub id: String,
}

/// Whether `key`, cut or padded to the length of `prefix`, is `prefix`.
pub open spec fn key_matches(key: Seq<u8>, prefix: Seq<u8>) -> bool {
    pad_seq(key, prefix.len(), PAD_BYTE) == prefix
}

/// The keys and values of stored entries.
pub open spec fn entries_view(v: Seq<(Vec<u8>, Vec<u8>)>) -> Seq<(Seq<u8>, Seq<u8>)> {
    v.map_values(|e: (Vec<u8>, Vec<u8>)| (e.0@, e.1@))
}

/// `result` is what a scan returns when the store yields `offered`, in
/// iteration order: the entries at the start of `offered` whose keys match
/// `prefix`, stopping at the first that does not, and at most `max` of them.
pub open spec fn is_scan_of(
    result: Seq<(Seq<u8>, Seq<u8>)>,
    offered: Seq<(Seq<u8>, Seq<u8>)>,
    prefix: Seq<u8>,
    max: nat,
) -> bool {
    &&& result.len() <= max
    &&& result.len() <= offered.len()
    &&& result == offered.subrange(0, result.len() as int)
    &&& forall|i: int| 0 <= i < result.len() ==> key_matches(#[trigger] result[i].0, prefix)
    &&& (result.len() == max || result.len() == offered.len() || !key_matches(
        offered[result.len() as int].0,
        prefix,
    ))
}

/// A prefix scan in progress: it is offered the store's entries in iteration
/// order and says after each whether it wants the next one.
pub struct PrefixScan {
    prefix: Vec<u8>,
    max_count: usize,
    entries: Vec<(Vec<u8>, Vec<u8>)>,
    accepting: bool,
    offered: Ghost<Seq<(Seq<u8>, Seq<u8>)>>,
}

impl PrefixScan {
    /// The scan's entries are its result so far, and a scan that has stopped
    /// has seen why.
    pub closed spec fn wf(&self) -> bool {
        let e = entries_view(self.entries@);
        let o = self.offered@;
        let p = self.prefix@;
        let m = self.max_count as nat;
        &&& is_scan_of(e, o, p, m)
        &&& self.accepting ==> e == o && e.len() < m
        &&& !self.accepting ==> (e.len() == m || (e.len() < o.len() && !key_matches(
            o[e.len() as int].0,
            p,
        )))
    }

    /// The prefix that keys are matched against.
    pub closed spec fn prefix(&self) -> Seq<u8> {
        self.prefix@
    }

    /// The most entries the scan returns.
    pub closed spec fn max(&self) -> nat {
        self.max_count as nat
    }

    /// The entries offered while the scan wanted them.
    pub closed spec fn offered(&self) -> Seq<(Seq<u8>, Seq<u8>)> {
        self.offered@
    }

    /// The entries kept so far.
    pub closed spec fn result(&self) -> Seq<(Seq<u8>, Seq<u8>)> {
        entries_view(self.entries@)
    }

    /// Whether the scan wants the next entry.
    pub closed spec fn accepting(&self) -> bool {
        self.accepting
    }

    /// A scan for keys that match `prefix`, returning at most `max_count` entries.
    pub fn new(prefix: Vec<u8>, max_count: usize) -> (r: PrefixScan)
        ensures
            r.prefix() == prefix@,
            r.max() == max_count,
            r.offered() == Seq::<(Seq<u8>, Seq<u8>)>::empty(),
            r.result() == Seq::<(Seq<u8>, Seq<u8>)>::empty(),
            r.accepting() == (max_count > 0),
            r.wf(),
    {
        let r = PrefixScan {
            prefix,
            max_count,
            entries: Vec::new(),
            accepting: max_count > 0,
            offered: Ghost(Seq::empty()),
        };
        assert(entries_view(r.entries@) =~= Seq::<(Seq<u8>, Seq<u8>)>::empty());
        assert(Seq::<(Seq<u8>, Seq<u8>)>::empty().subrange(0, 0) =~= Seq::<(Seq<u8>, Seq<u8>)>::empty());
        r
    }

    /// Offers the next entry of the store; returns whether the scan wants
    /// another. Once it has said no, nothing offered later changes its result.
    pub fn offer(&mut self, key: Vec<u8>, value: Vec<u8>) -> (more: bool)
        requires
            old(self).wf(),
        ensures
            final(self).wf(),
            final(self).prefix() == old(self).prefix(),
            final(self).max() == old(self).max(),
            old(self).accepting() ==> final(self).offered() == old(self).offered().push(
                (key@, value@),
            ),
            !old(self).accepting() ==> final(self).offered() == old(self).offered()
                && final(self).result() == old(self).result(),
            more == final(self).accepting(),
            is_scan_of(final(self).result(), final(self).offered(), final(self).prefix(), final(self).max()),
            !final(self).accepting() ==> forall|later: Seq<(Seq<u8>, Seq<u8>)>|
                is_scan_of(
                    final(self).result(),
                    #[trigger] (final(self).offered() + later),
                    final(self).prefix(),
                    final(self).max(),
                ),
    {
        if !self.accepting {
            proof {
                self.lemma_decided_scan_extends();
            }
            return false;
        }
        let matches = prefix_matches(key.as_slice(), self.prefix.as_slice());
        let ghost entry = (key@, value@);
        let ghost old_entries = entries_view(self.entries@);
        let ghost new_offered = self.offered@.push(entry);
        if matches {
            let more = self.entries.len() + 1 < self.max_count;
            self.entries.push((key, value));
            self.offered = Ghost(new_offered);
            self.accepting = more;
            proof {
                assert(entries_view(self.entries@) =~= old_entries.push(entry));
                assert(entries_view(self.entries@) =~= new_offered.subrange(0, self.entries@.len() as int));
            }
        } else {
            self.offered = Ghost(new_offered);
            self.accepting = false;
            proof {
                assert(old_entries =~= new_offered.subrange(0, old_entries.len() as int));
            }
        }
        proof {
            self.lemma_decided_scan_extends();
        }
        self.accepting
    }

    proof fn lemma_decided_scan_extends(&self)
        requires
            self.wf(),
        ensures
            !self.accepting ==> forall|later: Seq<(Seq<u8>, Seq<u8>)>|
                is_scan_of(
                    entries_view(self.entries@),
                    #[trigger] (self.offered@ + later),
                    self.prefix@,
                    self.max_count as nat,
                ),
    {
        if !self.accepting {
            let e = entries_view(self.entries@);
            let o = self.offered@;
            assert forall|later: Seq<(Seq<u8>, Seq<u8>)>|
                is_scan_of(e, #[trigger] (o + later), self.prefix@, self.max_count as nat) by {
                assert((o + later).subrange(0, e.len() as int) =~= o.subrange(0, e.len() as int));
                if e.len() < o.len() {
                    assert((o + later)[e.len() as int] == o[e.len() as int]);
                }
            }
        }
    }

    /// The entries the scan returns.
    pub fn into_entries(self) -> (r: Vec<(Vec<u8>, Vec<u8>)>)
        requires
            self.wf(),
        ensures
            entries_view(r@) == self.result(),
            is_scan_of(entries_view(r@), self.offered(), self.prefix(), self.max()),
    {
        self.entries
    }
}

/// What the store is asked to do for a read.
pub enum ReadPlan {
    /// Position an iterator at `seek` and offer its entries to `scan`.
    Scan { namespace: String, seek: Vec<u8>, scan: PrefixScan },
    /// Look up the entry under `key`.
    Lookup { namespace: String, key: Vec<u8> },
}

/// Routes `msg` to its namespace and says what to ask the store; a prefix read
/// matches keys on their first `prefix_length` bytes. An `UnknownNamespace`
/// error when the namespace is not among `configured`.
pub fn resolve_read(configured: &Vec<String>, prefix_length: usize, msg: &MsgRead) -> (r: Result<
    ReadPlan,
    ReadError,
>)
    ensures
        names_contain(configured.deep_view(), namespace_name(msg.msg_type)) <==> r is Ok,
        match r {
            Ok(ReadPlan::Scan { namespace, seek, scan }) => {
                &&& msg.msg_content matches MsgContentType::Prefix(query, max_count)
                &&& namespace@ == namespace_name(msg.msg_type)
                &&& seek@ == encode_utf8(query@)
                &&& scan.prefix() == pad_text(encode_utf8(query@), prefix_length as nat)
                &&& scan.max() == max_count
                &&& scan.offered() == Seq::<(Seq<u8>, Seq<u8>)>::empty()
                &&& scan.accepting() == (max_count > 0)
                &&& scan.wf()
            },
            Ok(ReadPlan::Lookup { namespace, key }) => {
                &&& msg.msg_content matches MsgContentType::Key(k)
                &&& namespace@ == namespace_name(msg.msg_type)
                &&& key@ == encode_utf8(k@)
            },
            Err(e) => e matches ReadError::UnknownNamespace(n) && n@ == namespace_name(msg.msg_type),
        },
{
    let namespace = msg.msg_type.name();
    if !is_configured(configured, &namespace) {
        return Err(ReadError::UnknownNamespace(namespace));
    }
    match &msg.msg_content {
        MsgContentType::Prefix(query, max_count) => {
            let seek = query.as_str().as_bytes_vec();
            let prefix = get_prefix_from_query(query.clone(), prefix_length);
            let scan = PrefixScan::new(prefix, *max_count);
            Ok(ReadPlan::Scan { namespace, seek, scan })
        },
        MsgContentType::Key(k) => {
            let key = k.as_str().as_bytes_vec();
            Ok(ReadPlan::Lookup { namespace, key })
        },
    }
}

/// The answer to a lookup of `key`, given what the store `found` under it.
pub fn lookup_result(key: Vec<u8>, found: Option<Vec<u8>>) -> (r: Result<
    (Vec<u8>, Vec<u8>),
    ReadError,
>)
    ensures
        match found {
            Some(v) => r == Ok::<(Vec<u8>, Vec<u8>), ReadError>((key, v)),
            None => r == Err::<(Vec<u8>, Vec<u8>), ReadError>(ReadError::NotFound(key)),
        },
{
    match found {
        Some(v) => Ok((key, v)),
        None => Err(ReadError::NotFound(key)),
    }
}

/// The value a read returned, or `default` when the read gave nothing.
pub fn value_or_default(found: Result<String, ReadError>, default: String) -> (r: String)
    ensures
        match found {
            Ok(v) => r == v,
            Err(_) => r == default,
        },
{
    match found {
        Ok(v) => v,
        Err(_) => default,
    }
}

} // verus!
