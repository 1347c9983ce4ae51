//! The ingestion worker of one event: a state machine from the worker's state
//! and what the outside world reported to its next state and the commands to
//! carry out (read the store, call the node, write records, wait).

use vstd::prelude::*;
use vstd::string::*;
use vstd::utf8::encode_utf8;

use crate::decode::{decoded_fields, has_hex_prefix, lemma_malformed_data_does_not_decode, malformed_hex_char, payload_hex, plain_count, strings_view, strip_hex_prefix, DecodeError, EventResult, Param, SLOT_HEX_LEN};
use crate::json::{checkpoint_json, checkpoint_position, checkpoint_record, fields_json, json_field_text, json_object};
use crate::keys::{build_query, pad_segment, pad_text, record_key};
use crate::namespace::MsgType;
use crate::position::{block_of, block_part, key_before, lemma_joined_position, moves_past, moves_past_checkpoint, position_key};
use crate::write::{content_text, MsgContentType, WriteMsg};

verus! {

/// The checkpoint of an event that has no stored one.
pub const DEFAULT_CHECKPOINT: &'static str = "0x0-0x0";

/// The pause between two polls, and before retrying to create a filter.
pub const POLL_DELAY_MS: u64 = 1000;

/// An event to ingest: its name, its signature topic (hex without `0x`) and
/// its parameters in declaration order.
#[derive(Clone, Debug)]
pub struct EventDef {
    pub name: String,
    pub topic: String,
    pub params: Vec<Param>,
}

/// What a worker is configured with: its event, the width its name is padded
/// to in keys, and where to notify new records, if anywhere.
#[derive(Clone, Debug)]
pub struct WorkerConfig {
    pub event: EventDef,
    pub name_width: usize,
    pub webhook: Option<String>,
}

/// Where a worker stands.
#[derive(Clone, Debug)]
pub enum Phase {
    /// Not started, or waiting for its stored checkpoint.
    Uninitialized,
    /// Asking the node for a new filter.
    AcquiringFilter,
    /// Polling the filter with this handle.
    Polling(String),
    /// Looking for a stored filter handle after the node refused a new one.
    Recovering,
}

/// A worker's state: its phase and the position of the last entry it processed
/// (`block-log`, in the node's hex).
#[derive(Clone, Debug)]
pub struct WorkerState {
    pub phase: Phase,
    pub checkpoint: String,
}

/// What the outside world reports to a worker.
#[derive(Clone, Debug)]
pub enum Input {
    /// The worker is started.
    Start,
    /// The stored checkpoint record was read (None: there is none).
    CheckpointLoaded(Option<String>),
    /// The node created a filter with this handle.
    FilterCreated(String),
    /// The node did not create a filter.
    FilterFailed,
    /// The stored filter handle was read (None: there is none).
    StoredFilter(Option<String>),
    /// The wait asked for is over.
    Tick,
    /// The node returned these new entries, at `now_ms` milliseconds since the epoch.
    Polled { entries: Vec<EventResult>, now_ms: u64 },
    /// The poll failed: the filter is gone or the node did not answer.
    PollFailed,
}

/// What a worker asks the outside world to do, in order.
#[derive(Debug)]
pub enum Command {
    /// Read the checkpoint record under `key` in the aggregations namespace.
    LoadCheckpoint { key: String },
    /// Ask the node for a filter on `topic` from block `from_block` on.
    CreateFilter { topic: String, from_block: String },
    /// Read the filter handle under `key` in the filters namespace.
    LoadFilter { key: String },
    /// Ask the node for the new entries of a filter.
    Poll { filter_id: String },
    /// Hand a write to the writer.
    Write(WriteMsg),
    /// Post a record's key and payload to a webhook; failures are only logged.
    Notify { url: String, key: String, payload: String },
    /// Log that the entry at (`block`, `log`) did not decode.
    DecodeFailed { block: String, log: String, error: DecodeError },
    /// Wait, then report `Tick`.
    Wait { millis: u64 },
}

/// A phase with its handle as characters.
pub enum PhaseView {
    Uninitialized,
    AcquiringFilter,
    Polling(Seq<char>),
    Recovering,
}

/// A state with its text as characters.
pub struct StateView {
    pub phase: PhaseView,
    pub checkpoint: Seq<char>,
}

/// A command with its text as characters and its keys as bytes; a write as
/// namespace, key and stored text.
pub enum CommandView {
    LoadCheckpoint(Seq<u8>),
    CreateFilter(Seq<char>, Seq<char>),
    LoadFilter(Seq<u8>),
    Poll(Seq<char>),
    Write(MsgType, Seq<u8>, Seq<char>),
    Notify(Seq<char>, Seq<u8>, Seq<char>),
    DecodeFailed(Seq<char>, Seq<char>, DecodeError),
    Wait(nat),
}

impl View for Phase {
    type V = PhaseView;

    open spec fn view(&self) -> PhaseView {
        match self {
            Phase::Uninitialized => PhaseView::Uninitialized,
            Phase::AcquiringFilter => PhaseView::AcquiringFilter,
            Phase::Polling(id) => PhaseView::Polling(id@),
            Phase::Recovering => PhaseView::Recovering,
        }
    }
}

impl View for WorkerState {
    type V = StateView;

    open spec fn view(&self) -> StateView {
        StateView { phase: self.phase@, checkpoint: self.checkpoint@ }
    }
}

impl View for Command {
    type V = CommandView;

    open spec fn view(&self) -> CommandView {
        match self {
            Command::LoadCheckpoint { key } => CommandView::LoadCheckpoint(encode_utf8(key@)),
            Command::CreateFilter { topic, from_block } => CommandView::CreateFilter(topic@, from_block@),
            Command::LoadFilter { key } => CommandView::LoadFilter(encode_utf8(key@)),
            Command::Poll { filter_id } => CommandView::Poll(filter_id@),
            Command::Write(m) => CommandView::Write(
                m.msg_type,
                encode_utf8(m.msg_content.0@),
                content_text(m.msg_content.1),
            ),
            Command::Notify { url, key, payload } => CommandView::Notify(url@, encode_utf8(key@), payload@),
            Command::DecodeFailed { block, log, error } => CommandView::DecodeFailed(block@, log@, *error),
            Command::Wait { millis } => CommandView::Wait(*millis as nat),
        }
    }
}

/// The views of `cs`, in order.
pub open spec fn commands_view(cs: Seq<Command>) -> Seq<CommandView> {
    cs.map_values(|c: Command| c@)
}

/// The key of an event's checkpoint and filter records: its name padded to
/// the configured width.
pub open spec fn name_key(cfg: WorkerConfig) -> Seq<u8> {
    pad_text(encode_utf8(cfg.event.name@), cfg.name_width as nat)
}

/// The checkpoint a worker starts from, given its stored record: the position
/// the record names, or `0x0-0x0`.
pub open spec fn start_checkpoint(stored: Option<Seq<char>>) -> Seq<char> {
    match stored {
        Some(doc) => match json_field_text(doc, "last_block"@) {
            Some(p) => p,
            None => DEFAULT_CHECKPOINT@,
        },
        None => DEFAULT_CHECKPOINT@,
    }
}

/// Asking for a filter from the checkpoint's block on.
pub open spec fn create_filter(cfg: WorkerConfig, checkpoint: Seq<char>) -> CommandView {
    CommandView::CreateFilter(cfg.event.topic@, block_of(checkpoint))
}

/// The `block-log` position of an entry.
pub open spec fn position_of(e: EventResult) -> Seq<char> {
    e.blockNumber@ + seq!['-'] + e.logIndex@
}

/// The record an entry is stored as, key and payload, or why it does not decode.
pub open spec fn entry_record(cfg: WorkerConfig, e: EventResult) -> Result<
    (Seq<u8>, Seq<char>),
    DecodeError,
> {
    match decoded_fields(e, cfg.event.params@) {
        Ok(fields) => Ok(
            (
                record_key(cfg.event.name@, cfg.name_width as nat, e.blockNumber@, e.logIndex@),
                json_object(fields),
            ),
        ),
        Err(x) => Err(x),
    }
}

/// What is done with one entry: its record is written to the events
/// namespace, or its failure is logged.
pub open spec fn entry_command(cfg: WorkerConfig, e: EventResult) -> CommandView {
    match entry_record(cfg, e) {
        Ok(r) => CommandView::Write(MsgType::Event, r.0, r.1),
        Err(x) => CommandView::DecodeFailed(e.blockNumber@, e.logIndex@, x),
    }
}

/// What is done with a batch of entries, one command each, in order.
pub open spec fn batch_commands(cfg: WorkerConfig, entries: Seq<EventResult>) -> Seq<CommandView> {
    entries.map_values(|e: EventResult| entry_command(cfg, e))
}

/// The record of the last entry of `entries` that decodes.
pub open spec fn last_record(cfg: WorkerConfig, entries: Seq<EventResult>) -> Option<
    (Seq<u8>, Seq<char>),
>
    decreases entries.len(),
{
    if entries.len() == 0 {
        None
    } else {
        match entry_record(cfg, entries.last()) {
            Ok(r) => Some(r),
            Err(_) => last_record(cfg, entries.drop_last()),
        }
    }
}

/// The checkpoint after a batch: taken, entry by entry, to the position of
/// each entry that comes after it; an empty batch leaves it as it is.
pub open spec fn batch_checkpoint(checkpoint: Seq<char>, entries: Seq<EventResult>) -> Seq<char>
    decreases entries.len(),
{
    if entries.len() == 0 {
        checkpoint
    } else {
        let before = batch_checkpoint(checkpoint, entries.drop_last());
        if moves_past(before, entries.last()) {
            position_of(entries.last())
        } else {
            before
        }
    }
}

/// The webhook notice of a batch: its last record, where a webhook is configured.
pub open spec fn notify_commands(cfg: WorkerConfig, entries: Seq<EventResult>) -> Seq<CommandView> {
    match cfg.webhook {
        Some(url) => match last_record(cfg, entries) {
            Some(r) => seq![CommandView::Notify(url@, r.0, r.1)],
            None => Seq::empty(),
        },
        None => Seq::empty(),
    }
}

/// What is done after a successful poll: the batch's records, the new
/// checkpoint with the time, the webhook notice, and the wait for the next poll.
pub open spec fn poll_commands(
    cfg: WorkerConfig,
    checkpoint: Seq<char>,
    entries: Seq<EventResult>,
    now_ms: nat,
) -> Seq<CommandView> {
    batch_commands(cfg, entries) + seq![
        CommandView::Write(
            MsgType::Aggregation,
            name_key(cfg),
            checkpoint_json(batch_checkpoint(checkpoint, entries), now_ms),
        ),
    ] + notify_commands(cfg, entries) + seq![CommandView::Wait(POLL_DELAY_MS as nat)]
}

/// The text of an optional string.
pub open spec fn opt_view(s: Option<String>) -> Option<Seq<char>> {
    match s {
        Some(x) => Some(x@),
        None => None,
    }
}

/// One step of a worker: its next state and its commands, given its state and
/// what it was told.
pub open spec fn step_spec(cfg: WorkerConfig, s: StateView, input: Input) -> (StateView, Seq<CommandView>) {
    match (s.phase, input) {
        (PhaseView::Uninitialized, Input::Start) => (s, seq![CommandView::LoadCheckpoint(name_key(cfg))]),
        (PhaseView::Uninitialized, Input::CheckpointLoaded(stored)) => {
            let cp = start_checkpoint(opt_view(stored));
            (
                StateView { phase: PhaseView::AcquiringFilter, checkpoint: cp },
                seq![create_filter(cfg, cp)],
            )
        },
        (PhaseView::AcquiringFilter, Input::FilterCreated(id)) => (
            StateView { phase: PhaseView::Polling(id@), checkpoint: s.checkpoint },
            seq![
                CommandView::Write(MsgType::Filter, name_key(cfg), id@),
                CommandView::Wait(POLL_DELAY_MS as nat),
            ],
        ),
        (PhaseView::AcquiringFilter, Input::FilterFailed) => (
            StateView { phase: PhaseView::Recovering, checkpoint: s.checkpoint },
            seq![CommandView::LoadFilter(name_key(cfg))],
        ),
        (PhaseView::AcquiringFilter, Input::Tick) => (s, seq![create_filter(cfg, s.checkpoint)]),
        (PhaseView::Recovering, Input::StoredFilter(Some(id))) => (
            StateView { phase: PhaseView::Polling(id@), checkpoint: s.checkpoint },
            seq![CommandView::Wait(POLL_DELAY_MS as nat)],
        ),
        (PhaseView::Recovering, Input::StoredFilter(None)) => (
            StateView { phase: PhaseView::AcquiringFilter, checkpoint: s.checkpoint },
            seq![CommandView::Wait(POLL_DELAY_MS as nat)],
        ),
        (PhaseView::Polling(id), Input::Tick) => (s, seq![CommandView::Poll(id)]),
        (PhaseView::Polling(id), Input::Polled { entries, now_ms }) => (
            StateView { phase: PhaseView::Polling(id), checkpoint: batch_checkpoint(s.checkpoint, entries@) },
            poll_commands(cfg, s.checkpoint, entries@, now_ms as nat),
        ),
        (PhaseView::Polling(_), Input::PollFailed) => (
            StateView { phase: PhaseView::AcquiringFilter, checkpoint: s.checkpoint },
            seq![create_filter(cfg, s.checkpoint)],
        ),
        _ => (s, Seq::empty()),
    }
}

/// The `block-log` position of an entry.
pub fn entry_position(e: &EventResult) -> (r: String)
    ensures
        r@ == position_of(*e),
{
    proof {
        reveal_strlit("-");
    }
    let mut r = e.blockNumber.clone();
    r.append("-");
    r.append(e.logIndex.as_str());
    r
}

impl WorkerConfig {
    /// The key of this event's checkpoint and filter records.
    pub fn name_key(&self) -> (r: String)
        ensures
            encode_utf8(r@) == name_key(*self),
    {
        pad_segment(self.event.name.as_str(), self.name_width)
    }

    fn create_filter(&self, checkpoint: &String) -> (r: Command)
        ensures
            r@ == create_filter(*self, checkpoint@),
    {
        Command::CreateFilter { topic: self.event.topic.clone(), from_block: block_part(checkpoint.as_str()) }
    }

    /// What is done with one entry, and its record (key and payload) when it
    /// decodes.
    pub fn entry_command(&self, e: &EventResult) -> (r: (Command, Option<(String, String)>))
        ensures
            r.0@ == entry_command(*self, *e),
            match r.1 {
                Some(x) => entry_record(*self, *e) == Ok::<(Seq<u8>, Seq<char>), DecodeError>(
                    (encode_utf8(x.0@), x.1@),
                ),
                None => entry_record(*self, *e) is Err,
            },
    {
        match e.decode_fields(&self.event.params) {
            Ok(fields) => {
                let key = build_query(
                    self.event.name.clone(),
                    e.blockNumber.clone(),
                    e.logIndex.clone(),
                    self.name_width,
                );
                let payload = fields_json(&fields);
                let msg = WriteMsg {
                    msg_content: (key.clone(), MsgContentType::PureString(payload.clone())),
                    msg_type: MsgType::Event,
                };
                (Command::Write(msg), Some((key, payload)))
            },
            Err(x) => (
                Command::DecodeFailed { block: e.blockNumber.clone(), log: e.logIndex.clone(), error: x },
                None,
            ),
        }
    }
}

/// The commands for a batch of entries, one each in order, and the record of
/// the last entry that decodes.
pub fn process_batch(cfg: &WorkerConfig, entries: &Vec<EventResult>) -> (r: (
    Vec<Command>,
    Option<(String, String)>,
))
    ensures
        commands_view(r.0@) == batch_commands(*cfg, entries@),
        opt_pair_view(r.1) == last_record(*cfg, entries@),
{
    let mut commands: Vec<Command> = Vec::new();
    let mut last: Option<(String, String)> = None;
    let mut i: usize = 0;
    while i < entries.len()
        invariant
            i <= entries@.len(),
            commands_view(commands@) == batch_commands(*cfg, entries@.subrange(0, i as int)),
            opt_pair_view(last) == last_record(*cfg, entries@.subrange(0, i as int)),
        decreases entries.len() - i,
    {
        let (command, record) = cfg.entry_command(&entries[i]);
        let ghost before = commands@;
        commands.push(command);
        if record.is_some() {
            last = record;
        }
        proof {
            let s = entries@.subrange(0, i + 1);
            assert(s.drop_last() =~= entries@.subrange(0, i as int));
            assert(s.last() == entries@[i as int]);
            assert(commands@ == before.push(command));
            assert(commands_view(commands@) =~= commands_view(before).push(command@));
            assert(batch_commands(*cfg, s) =~= batch_commands(*cfg, s.drop_last()).push(
                entry_command(*cfg, s.last()),
            ));
        }
        i = i + 1;
    }
    assert(entries@.subrange(0, i as int) =~= entries@);
    (commands, last)
}

/// The bytes of a record's key and the text of its payload.
pub open spec fn opt_pair_view(p: Option<(String, String)>) -> Option<(Seq<u8>, Seq<char>)> {
    match p {
        Some(x) => Some((encode_utf8(x.0@), x.1@)),
        None => None,
    }
}

fn poll_step(cfg: &WorkerConfig, checkpoint: String, entries: &Vec<EventResult>, now_ms: u64) -> (r: (
    String,
    Vec<Command>,
))
    ensures
        r.0@ == batch_checkpoint(checkpoint@, entries@),
        commands_view(r.1@) == poll_commands(*cfg, checkpoint@, entries@, now_ms as nat),
{
    let (mut commands, last) = process_batch(cfg, entries);
    let ghost batch = commands_view(commands@);
    let ghost start = checkpoint@;
    let mut next = checkpoint;
    let mut i: usize = 0;
    while i < entries.len()
        invariant
            i <= entries@.len(),
            next@ == batch_checkpoint(start, entries@.subrange(0, i as int)),
        decreases entries.len() - i,
    {
        if moves_past_checkpoint(next.as_str(), &entries[i]) {
            next = entry_position(&entries[i]);
        }
        proof {
            let s = entries@.subrange(0, i + 1);
            assert(s.drop_last() =~= entries@.subrange(0, i as int));
            assert(s.last() == entries@[i as int]);
        }
        i = i + 1;
    }
    assert(entries@.subrange(0, i as int) =~= entries@);
    let record = checkpoint_record(next.as_str(), now_ms);
    commands.push(
        Command::Write(
            WriteMsg {
                msg_content: (cfg.name_key(), MsgContentType::PureString(record)),
                msg_type: MsgType::Aggregation,
            },
        ),
    );
    let ghost with_checkpoint = commands_view(commands@);
    assert(with_checkpoint =~= batch + seq![
        CommandView::Write(
            MsgType::Aggregation,
            name_key(*cfg),
            checkpoint_json(batch_checkpoint(checkpoint@, entries@), now_ms as nat),
        ),
    ]);
    match &cfg.webhook {
        Some(url) => match last {
            Some((key, payload)) => {
                commands.push(Command::Notify { url: url.clone(), key, payload });
            },
            None => {},
        },
        None => {},
    }
    assert(commands_view(commands@) =~= with_checkpoint + notify_commands(*cfg, entries@));
    let ghost with_notice = commands_view(commands@);
    commands.push(Command::Wait { millis: POLL_DELAY_MS });
    assert(commands_view(commands@) =~= with_notice + seq![CommandView::Wait(POLL_DELAY_MS as nat)]);
    (next, commands)
}

impl WorkerState {
    /// A worker that has not started, at the default checkpoint.
    pub fn new() -> (r: WorkerState)
        ensures
            r@.phase == PhaseView::Uninitialized,
            r@.checkpoint == DEFAULT_CHECKPOINT@,
    {
        WorkerState { phase: Phase::Uninitialized, checkpoint: String::from_str(DEFAULT_CHECKPOINT) }
    }
}

/// One step of the worker configured by `cfg`: from `state` and `input` to its
/// next state and the commands to carry out, in order.
pub fn step(cfg: &WorkerConfig, state: WorkerState, input: Input) -> (r: (WorkerState, Vec<Command>))
    ensures
        (r.0@, commands_view(r.1@)) == step_spec(*cfg, state@, input),
{
    let ghost input0 = input;
    let ghost s0 = state@;
    let WorkerState { phase, checkpoint } = state;
    match (phase, input) {
        (Phase::Uninitialized, Input::Start) => {
            let commands = vec![Command::LoadCheckpoint { key: cfg.name_key() }];
            assert(commands_view(commands@) =~= seq![CommandView::LoadCheckpoint(name_key(*cfg))]);
            (WorkerState { phase: Phase::Uninitialized, checkpoint }, commands)
        },
        (Phase::Uninitialized, Input::CheckpointLoaded(stored)) => {
            let cp = match &stored {
                Some(doc) => match checkpoint_position(doc.as_str()) {
                    Some(p) => p,
                    None => String::from_str(DEFAULT_CHECKPOINT),
                },
                None => String::from_str(DEFAULT_CHECKPOINT),
            };
            let commands = vec![cfg.create_filter(&cp)];
            assert(commands_view(commands@) =~= seq![create_filter(*cfg, cp@)]);
            (WorkerState { phase: Phase::AcquiringFilter, checkpoint: cp }, commands)
        },
        (Phase::AcquiringFilter, Input::FilterCreated(id)) => {
            let write = WriteMsg {
                msg_content: (cfg.name_key(), MsgContentType::PureString(id.clone())),
                msg_type: MsgType::Filter,
            };
            let commands = vec![Command::Write(write), Command::Wait { millis: POLL_DELAY_MS }];
            assert(commands_view(commands@) =~= seq![
                CommandView::Write(MsgType::Filter, name_key(*cfg), id@),
                CommandView::Wait(POLL_DELAY_MS as nat),
            ]);
            (WorkerState { phase: Phase::Polling(id), checkpoint }, commands)
        },
        (Phase::AcquiringFilter, Input::FilterFailed) => {
            let commands = vec![Command::LoadFilter { key: cfg.name_key() }];
            assert(commands_view(commands@) =~= seq![CommandView::LoadFilter(name_key(*cfg))]);
            (WorkerState { phase: Phase::Recovering, checkpoint }, commands)
        },
        (Phase::AcquiringFilter, Input::Tick) => {
            let commands = vec![cfg.create_filter(&checkpoint)];
            assert(commands_view(commands@) =~= seq![create_filter(*cfg, checkpoint@)]);
            (WorkerState { phase: Phase::AcquiringFilter, checkpoint }, commands)
        },
        (Phase::Recovering, Input::StoredFilter(Some(id))) => {
            let commands = vec![Command::Wait { millis: POLL_DELAY_MS }];
            assert(commands_view(commands@) =~= seq![CommandView::Wait(POLL_DELAY_MS as nat)]);
            (WorkerState { phase: Phase::Polling(id), checkpoint }, commands)
        },
        (Phase::Recovering, Input::StoredFilter(None)) => {
            let commands = vec![Command::Wait { millis: POLL_DELAY_MS }];
            assert(commands_view(commands@) =~= seq![CommandView::Wait(POLL_DELAY_MS as nat)]);
            (WorkerState { phase: Phase::AcquiringFilter, checkpoint }, commands)
        },
        (Phase::Polling(id), Input::Tick) => {
            let commands = vec![Command::Poll { filter_id: id.clone() }];
            assert(commands_view(commands@) =~= seq![CommandView::Poll(id@)]);
            (WorkerState { phase: Phase::Polling(id), checkpoint }, commands)
        },
        (Phase::Polling(id), Input::Polled { entries, now_ms }) => {
            let (next, commands) = poll_step(cfg, checkpoint, &entries, now_ms);
            (WorkerState { phase: Phase::Polling(id), checkpoint: next }, commands)
        },
        (Phase::Polling(_), Input::PollFailed) => {
            let commands = vec![cfg.create_filter(&checkpoint)];
            assert(commands_view(commands@) =~= seq![create_filter(*cfg, checkpoint@)]);
            (WorkerState { phase: Phase::AcquiringFilter, checkpoint }, commands)
        },
        (phase, _) => {
            let commands: Vec<Command> = Vec::new();
            assert(commands_view(commands@) =~= Seq::<CommandView>::empty());
            (WorkerState { phase, checkpoint }, commands)
        },
    }
}

/// The text of every field of a log entry.
pub open spec fn entry_view(e: EventResult) -> (
    Seq<char>,
    Seq<char>,
    Seq<char>,
    Seq<char>,
    Seq<char>,
    Seq<char>,
    Seq<char>,
    Seq<Seq<char>>,
) {
    (
        e.logIndex@,
        e.blockNumber@,
        e.blockHash@,
        e.transactionHash@,
        e.transactionIndex@,
        e.address@,
        e.data@,
        strings_view(e.topics@),
    )
}

/// A log entry that the node delivers twice, in one poll or in two, is handled
/// the same way both times. When it decodes, both writes go to the events
/// namespace under the key of its name and position with the same payload, so
/// the second write leaves the record as the first one made it.
pub proof fn lemma_redelivery_is_idempotent(
    cfg: WorkerConfig,
    first: Seq<EventResult>,
    i: int,
    second: Seq<EventResult>,
    j: int,
)
    requires
        0 <= i < first.len(),
        0 <= j < second.len(),
        entry_view(first[i]) == entry_view(second[j]),
    ensures
        batch_commands(cfg, first)[i] == batch_commands(cfg, second)[j],
        entry_record(cfg, first[i]) is Ok ==> batch_commands(cfg, first)[i] == CommandView::Write(
            MsgType::Event,
            record_key(cfg.event.name@, cfg.name_width as nat, first[i].blockNumber@, first[i].logIndex@),
            entry_record(cfg, first[i])->Ok_0.1,
        ),
{
    assert(decoded_fields(first[i], cfg.event.params@) == decoded_fields(second[j], cfg.event.params@));
}

/// An entry with malformed hex data does not stop its batch: of three entries
/// whose first and third decode and whose second holds, in its data of one
/// 32-byte slot per non-indexed parameter, a character that is not hex, the
/// first and third are written to the events namespace, in order, and the
/// second is reported as not decoding (as malformed hex when its topics are
/// in order).
pub proof fn lemma_malformed_entry_is_isolated(
    cfg: WorkerConfig,
    e1: EventResult,
    e2: EventResult,
    e3: EventResult,
    q: int,
)
    requires
        entry_record(cfg, e1) is Ok,
        entry_record(cfg, e3) is Ok,
        has_hex_prefix(e2.data@),
        strip_hex_prefix(e2.data@).len() == SLOT_HEX_LEN * plain_count(cfg.event.params@, 0),
        0 <= q < strip_hex_prefix(e2.data@).len(),
        malformed_hex_char(strip_hex_prefix(e2.data@)[q]),
    ensures
        ({
            let c = batch_commands(cfg, seq![e1, e2, e3]);
            &&& c.len() == 3
            &&& c[0] == CommandView::Write(
                MsgType::Event,
                entry_record(cfg, e1)->Ok_0.0,
                entry_record(cfg, e1)->Ok_0.1,
            )
            &&& c[1] matches CommandView::DecodeFailed(block, log, _)
            &&& c[1]->DecodeFailed_0 == e2.blockNumber@
            &&& c[1]->DecodeFailed_1 == e2.logIndex@
            &&& payload_hex(e2, cfg.event.params@) is Ok ==> c[1]->DecodeFailed_2 == DecodeError::MalformedHex
            &&& c[2] == CommandView::Write(
                MsgType::Event,
                entry_record(cfg, e3)->Ok_0.0,
                entry_record(cfg, e3)->Ok_0.1,
            )
        }),
{
    let b = seq![e1, e2, e3];
    assert(b[0] == e1 && b[1] == e2 && b[2] == e3);
    lemma_malformed_data_does_not_decode(e2, cfg.event.params@, q);
}

/// The checkpoint never moves back: where the old checkpoint is a readable
/// position, the one after any batch is readable too and is not before it.
pub proof fn lemma_checkpoint_never_moves_back(checkpoint: Seq<char>, entries: Seq<EventResult>)
    requires
        position_key(checkpoint) is Some,
    ensures
        position_key(batch_checkpoint(checkpoint, entries)) is Some,
        !key_before(
            position_key(batch_checkpoint(checkpoint, entries))->0,
            position_key(checkpoint)->0,
        ),
    decreases entries.len(),
{
    if entries.len() > 0 {
        lemma_checkpoint_never_moves_back(checkpoint, entries.drop_last());
        let before = batch_checkpoint(checkpoint, entries.drop_last());
        let e = entries.last();
        if moves_past(before, e) {
            lemma_joined_position(e.blockNumber@, e.logIndex@);
        }
    }
}

} // verus!
