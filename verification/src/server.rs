use vstd::prelude::*;
use serde_json::Value;
use crate::error::{error_message, MemoryError};
use crate::external::{fresh_simple_uuid, json_set_member, json_with_member, lowercase_of, utc_now};
use crate::store::{
    absence_reported, is_not_found_for, archived, versions_before, event_types_view, latest_events, memory_types_view, query_view, recallable,
    referenced_by, drawn_from, covers, entry_views, MemoryStore, SessionStore,
};
use crate::text::{concat2, is_lower_hex_digit, occurs_in};
use crate::types::{
    DataClass, EventType, MemoryEntry, MemoryEntryView, MemoryStatus, MemoryType, ReplaySnapshot,
    ReplaySnapshotView, Session, SessionEvent, SessionStatus, SessionView, Timestamp,
};

verus! {

// --- Tool inputs ---

/// Input of `get_session_state`.
#[derive(Debug)]
pub struct GetSessionStateInput {
    pub session_id: String,
}

/// Input of `list_session_events`.
#[derive(Debug)]
pub struct ListSessionEventsInput {
    pub session_id: String,
    pub event_types: Option<Vec<EventType>>,
    pub limit: Option<usize>,
}

/// Input of `retrieve_memory`.
#[derive(Debug)]
pub struct RetrieveMemoryInput {
    pub subject_type: String,
    pub subject_id: String,
    pub query: Option<String>,
    pub memory_types: Option<Vec<MemoryType>>,
    pub limit: Option<usize>,
}

/// Input of `store_memory`; `confidence` is the IEEE-754 bit pattern of the
/// confidence score.
#[derive(Debug)]
pub struct StoreMemoryInput {
    pub memory_type: MemoryType,
    pub subject_type: String,
    pub subject_id: String,
    pub content: String,
    pub data_class: Option<DataClass>,
    pub source_session_id: Option<String>,
    pub confidence: Option<u64>,
}

/// Input of `update_memory`.
#[derive(Debug)]
pub struct UpdateMemoryInput {
    pub memory_id: String,
    pub content: String,
    pub reason: Option<String>,
}

/// Input of `delete_memory`.
#[derive(Debug)]
pub struct DeleteMemoryInput {
    pub memory_id: String,
    pub reason: Option<String>,
}

/// Input of `redact_memory`.
#[derive(Debug)]
pub struct RedactMemoryInput {
    pub memory_id: String,
    pub redacted_content: String,
    pub fields_removed: Option<Vec<String>>,
}

/// Input of `list_memory_refs`.
#[derive(Debug)]
pub struct ListMemoryRefsInput {
    pub session_id: String,
}

/// Input of `create_replay_snapshot`.
#[derive(Debug)]
pub struct CreateReplaySnapshotInput {
    pub session_id: String,
}

/// Input of `resume_session`.
#[derive(Debug)]
pub struct ResumeSessionInput {
    pub session_id: String,
    pub resume_payload: Option<Value>,
    pub reason: Option<String>,
}

/// Input of `terminate_session`.
#[derive(Debug)]
pub struct TerminateSessionInput {
    pub session_id: String,
    pub reason: String,
    pub reason_code: Option<String>,
}

// --- Tool outputs ---

/// A memory entry was marked deleted, for the given reason.
#[derive(Debug)]
pub struct DeletedMemory {
    pub memory_id: String,
    pub reason: String,
}

/// A memory entry was redacted; `fields_removed` echoes the request.
#[derive(Debug)]
pub struct RedactedMemory {
    pub memory_id: String,
    pub fields_removed: Vec<String>,
}

/// A reference to a memory entry that influenced a session; `subject` is
/// `subject_type:subject_id`.
#[derive(Debug)]
pub struct MemoryRef {
    pub memory_id: String,
    pub memory_type: MemoryType,
    pub subject: String,
    pub data_class: DataClass,
}

/// A replay snapshot was stored.
#[derive(Debug)]
pub struct SnapshotReceipt {
    pub snapshot_id: String,
    pub session_id: String,
    pub state_version: u32,
}

/// What a request to resume a session came to.
#[derive(Debug)]
pub enum ResumeOutcome {
    /// The session could not be read.
    Failed(MemoryError),
    /// The session is not paused, so it was left alone.
    NotPaused { session_id: String, status: SessionStatus },
    /// The session was resumed.
    Resumed { session_id: String },
}

/// A session was terminated, for the given reason.
#[derive(Debug)]
pub struct TerminationReceipt {
    pub session_id: String,
    pub reason: String,
}

// --- The model of each tool's effect ---

/// A generated identifier: `prefix` followed by 32 lower-case hexadecimal
/// digits.
pub open spec fn fresh_id(prefix: Seq<char>, id: Seq<char>) -> bool {
    &&& id.len() == prefix.len() + 32
    &&& id.subrange(0, prefix.len() as int) == prefix
    &&& forall|i: int| prefix.len() <= i < id.len() ==> is_lower_hex_digit(#[trigger] id[i])
}

/// The limit that applies when none is given.
pub open spec fn limit_or(limit: Option<usize>, default: usize) -> usize {
    match limit {
        Some(l) => l,
        None => default,
    }
}

/// An optional list, as an optional sequence.
pub open spec fn opt_seq<T>(v: Option<Vec<T>>) -> Option<Seq<T>> {
    match v {
        Some(v) => Some(v@),
        None => None,
    }
}

/// An optional string, as optional characters.
pub open spec fn opt_chars(s: Option<String>) -> Option<Seq<char>> {
    match s {
        Some(s) => Some(s@),
        None => None,
    }
}

/// The entry that `store_memory` writes: version 1, active, written at
/// `at`, of class `Internal` unless another is given.
pub open spec fn stored_entry(input: StoreMemoryInput, memory_id: String, at: Timestamp) -> MemoryEntryView {
    MemoryEntryView {
        memory_id: memory_id,
        memory_type: input.memory_type,
        subject_type: input.subject_type,
        subject_id: input.subject_id,
        content: input.content,
        data_class: match input.data_class {
            Some(d) => d,
            None => DataClass::Internal,
        },
        source_session_id: input.source_session_id,
        source_artifact_ids: Seq::empty(),
        confidence: input.confidence,
        version: 1,
        status: MemoryStatus::Active,
        created_at: at,
        updated_at: at,
    }
}

/// An entry with new content as its next version, updated at `at`.
pub open spec fn revised_entry(e: MemoryEntryView, content: String, at: Timestamp) -> MemoryEntryView {
    MemoryEntryView { content: content, version: (e.version + 1) as u32, updated_at: at, ..e }
}

/// An entry with its content replaced by a redacted text, marked redacted,
/// as its next version, updated at `at`.
pub open spec fn redacted_entry(e: MemoryEntryView, content: String, at: Timestamp) -> MemoryEntryView {
    MemoryEntryView {
        content: content,
        status: MemoryStatus::Redacted,
        version: (e.version + 1) as u32,
        updated_at: at,
        ..e
    }
}

/// The snapshot of a session taken at `at`.
pub open spec fn frozen_snapshot(s: SessionView, snapshot_id: String, session_id: String, at: Timestamp) -> ReplaySnapshotView {
    ReplaySnapshotView {
        snapshot_id: snapshot_id,
        session_id: session_id,
        state_version: s.state_version,
        workflow_state: s.workflow_state,
        memory_refs: s.memory_refs,
        artifact_refs: s.artifact_refs,
        agent_id: s.agent_id,
        agent_version: s.agent_version,
        created_at: at,
    }
}

/// A paused session made active again: its next state version, updated at
/// `at`, with the resume payload, if any, set as `resume_payload` in its
/// workflow state.
pub open spec fn resumed_session(s: SessionView, payload: Option<Value>, at: Timestamp) -> SessionView {
    SessionView {
        status: SessionStatus::Active,
        state_version: (s.state_version + 1) as u32,
        updated_at: at,
        workflow_state: match payload {
            Some(p) => json_with_member(s.workflow_state, "resume_payload"@, p),
            None => s.workflow_state,
        },
        ..s
    }
}

/// A session stopped, updated at `at`.
pub open spec fn terminated_session(s: SessionView, at: Timestamp) -> SessionView {
    SessionView { status: SessionStatus::Terminated, updated_at: at, ..s }
}

/// An audit event written by the operator for a session.
pub open spec fn operator_event(e: SessionEvent, session_id: Seq<char>, kind: EventType, summary: Seq<char>) -> bool {
    &&& fresh_id("evt_"@, e.event_id@)
    &&& e.session_id@ == session_id
    &&& e.sequence == 0
    &&& e.event_type == kind
    &&& e.actor@ == "operator"@
    &&& e.summary@ == summary
    &&& e.data_class is None
}

/// The event log gained an operator event of the given kind and summary at
/// its end.
pub open spec fn appended_audit(before: Seq<SessionEvent>, after: Seq<SessionEvent>, session_id: Seq<char>, kind: EventType, summary: Seq<char>) -> bool {
    &&& after.len() == before.len() + 1
    &&& after.drop_last() == before
    &&& operator_event(after.last(), session_id, kind, summary)
}

/// The event log either gained the audit event at its end, or stayed as it
/// was (a failed append is not reported).
pub open spec fn audited(before: Seq<SessionEvent>, after: Seq<SessionEvent>, session_id: Seq<char>, kind: EventType, summary: Seq<char>) -> bool {
    after == before || appended_audit(before, after, session_id, kind, summary)
}

/// The stored sessions hold `changed` (made at some instant) under `key`,
/// and are otherwise as they were.
pub open spec fn replaced(
    before: Map<Seq<char>, SessionView>,
    after: Map<Seq<char>, SessionView>,
    key: Seq<char>,
    changed: spec_fn(Timestamp) -> SessionView,
) -> bool {
    after.contains_key(key) && after == before.insert(key, changed(after[key].updated_at))
}

/// The stored sessions either hold `changed` under `key`, or stayed as they
/// were (a failed write is not reported).
pub open spec fn rewritten(
    before: Map<Seq<char>, SessionView>,
    after: Map<Seq<char>, SessionView>,
    key: Seq<char>,
    changed: spec_fn(Timestamp) -> SessionView,
) -> bool {
    after == before || replaced(before, after, key, changed)
}

/// The summary of a termination event: the reason, then the reason code
/// (`manual` if none) in brackets.
pub open spec fn termination_summary(reason: Seq<char>, code: Option<Seq<char>>) -> Seq<char> {
    reason + " ("@ + match code {
        Some(c) => c,
        None => "manual"@,
    } + ")"@
}

/// The reference a listing gives for an entry.
pub open spec fn describes(r: MemoryRef, e: MemoryEntryView) -> bool {
    &&& r.memory_id@ == e.memory_id@
    &&& r.memory_type == e.memory_type
    &&& r.subject@ == e.subject_type@ + ":"@ + e.subject_id@
    &&& r.data_class == e.data_class
}

/// The name a session status is shown by.
pub open spec fn status_name(status: SessionStatus) -> Seq<char> {
    match status {
        SessionStatus::Active => "Active"@,
        SessionStatus::Paused => "Paused"@,
        SessionStatus::Completed => "Completed"@,
        SessionStatus::Terminated => "Terminated"@,
        SessionStatus::Failed => "Failed"@,
    }
}

/// The name a session status is shown by.
pub fn status_label(status: SessionStatus) -> (r: &'static str)
    ensures
        r@ == status_name(status),
{
    match status {
        SessionStatus::Active => "Active",
        SessionStatus::Paused => "Paused",
        SessionStatus::Completed => "Completed",
        SessionStatus::Terminated => "Terminated",
        SessionStatus::Failed => "Failed",
    }
}

/// The reply a tool gives for an error: `Error: ` and the error's message.
pub fn error_reply(e: &MemoryError) -> (m: String)
    ensures
        m@ == "Error: "@ + error_message(*e),
{
    concat2("Error: ", e.message().as_str())
}

/// The reply to a request to resume a session that is not paused.
pub fn not_paused_reply(session_id: &str, status: SessionStatus) -> (m: String)
    ensures
        m@ == "Session "@ + session_id@ + " is not paused (status: "@ + status_name(status) + ")"@,
{
    let m = concat2(concat2(concat2(concat2("Session ", session_id).as_str(), " is not paused (status: ").as_str(), status_label(status)).as_str(), ")");
    assert(m@ =~= "Session "@ + session_id@ + " is not paused (status: "@ + status_name(status) + ")"@);
    m
}

/// What a tool returns after a store write: `value` if the store took the
/// write, else the store's error, unchanged.
pub fn or_store_error<T>(write: Result<(), MemoryError>, value: T) -> (r: Result<T, MemoryError>)
    ensures
        r == match write {
            Ok(()) => Ok(value),
            Err(e) => Err::<T, MemoryError>(e),
        },
{
    match write {
        Ok(()) => Ok(value),
        Err(e) => Err(e),
    }
}

/// The references a listing gives for the entries a store listed, in the
/// same order; the store's error, if any, is handed on unchanged.
pub fn memory_refs_of(listed: Result<Vec<MemoryEntry>, MemoryError>) -> (r: Result<Vec<MemoryRef>, MemoryError>)
    ensures
        listed matches Err(e) ==> r == Err::<Vec<MemoryRef>, MemoryError>(e),
        listed matches Ok(found) ==> r matches Ok(refs) && refs@.len() == found@.len()
            && forall|t: int| 0 <= t < found@.len() ==> describes(#[trigger] refs@[t], found@[t]@),
{
    let found = match listed {
        Ok(found) => found,
        Err(e) => return Err(e),
    };
        let mut refs: Vec<MemoryRef> = Vec::new();
        let mut i: usize = 0;
        while i < found.len()
            invariant
                i <= found@.len(),
                refs@.len() == i,
                forall|t: int| 0 <= t < i ==> describes(#[trigger] refs@[t], found@[t]@),
            decreases found@.len() - i,
        {
            let e = &found[i];
            let subject = concat2(concat2(e.subject_type.as_str(), ":").as_str(), e.subject_id.as_str());
            refs.push(MemoryRef {
                memory_id: e.memory_id.clone(),
                memory_type: e.memory_type,
                subject,
                data_class: e.data_class,
            });
            i = i + 1;
        }
        Ok(refs)
}

/// Filing a version always changes the history.
proof fn lemma_archive_grows(h: Map<Seq<char>, Seq<MemoryEntryView>>, id: Seq<char>, e: MemoryEntryView)
    ensures
        archived(h, id, e) != h,
{
    let a = archived(h, id, e);
    assert(a.contains_key(id));
    assert(a[id].len() == versions_before(h, id).len() + 1);
    if a == h {
        assert(h.contains_key(id));
        assert(versions_before(h, id) == h[id]);
    }
}

/// A new identifier: `prefix` then a random UUID in simple form.
fn new_id(prefix: &str) -> (id: String)
    ensures
        fresh_id(prefix@, id@),
{
    let uid = fresh_simple_uuid();
    let id = concat2(prefix, uid.as_str());
    assert(id@.subrange(0, prefix@.len() as int) =~= prefix@);
    assert forall|i: int| prefix@.len() <= i < id@.len() implies is_lower_hex_digit(#[trigger] id@[i]) by {
        assert(id@[i] == uid@[i - prefix@.len()]);
    }
    id
}

/// The session-memory tools over a session store and a memory store.
pub struct SessionMemoryServer<S: SessionStore, M: MemoryStore> {
    sessions: S,
    memory: M,
}

impl<S: SessionStore, M: MemoryStore> SessionMemoryServer<S, M> {
    /// The session store.
    pub closed spec fn session_store(self) -> S {
        self.sessions
    }

    /// The memory store.
    pub closed spec fn memory_store(self) -> M {
        self.memory
    }

    /// A server over the given stores.
    pub fn new(sessions: S, memory: M) -> (r: Self)
        ensures
            r.session_store() == sessions,
            r.memory_store() == memory,
    {
        SessionMemoryServer { sessions, memory }
    }

    /// The session store, for reading.
    pub fn session_backend(&self) -> (r: &S)
        ensures
            *r == self.session_store(),
    {
        &self.sessions
    }

    /// The memory store, for reading.
    pub fn memory_backend(&self) -> (r: &M)
        ensures
            *r == self.memory_store(),
    {
        &self.memory
    }

    /// Reads the current state of a session.
    pub fn get_session_state(&self, input: GetSessionStateInput) -> (r: Result<Session, MemoryError>)
        ensures
            r matches Ok(s) ==> self.session_store().sessions().contains_key(input.session_id@)
                && s@ == self.session_store().sessions()[input.session_id@],
            r matches Err(e) ==> absence_reported(e, self.session_store().sessions().contains_key(input.session_id@)),
            self.session_store().infallible() ==> (r is Ok <==> self.session_store().sessions().contains_key(input.session_id@)),
            self.session_store().infallible() ==> (r matches Err(e) ==> is_not_found_for(e, input.session_id@)),
    {
        self.sessions.get_session(input.session_id.as_str())
    }

    /// The newest events of a session (20 unless a limit is given), newest
    /// first, of the given types if any.
    pub fn list_session_events(&self, input: ListSessionEventsInput) -> (r: Result<Vec<SessionEvent>, MemoryError>)
        ensures
            r matches Ok(v) ==> v@ == latest_events(
                self.session_store().events(),
                input.session_id@,
                opt_seq(input.event_types),
                limit_or(input.limit, 20) as nat,
            ),
            input.limit matches Some(l) ==> (r matches Ok(v) ==> v@ == latest_events(
                self.session_store().events(), input.session_id@, opt_seq(input.event_types), l as nat)),
            input.limit is None ==> (r matches Ok(v) ==> v@ == latest_events(
                self.session_store().events(), input.session_id@, opt_seq(input.event_types), 20)),
            self.session_store().infallible() ==> r is Ok,
    {
        let types: Option<&[EventType]> = match &input.event_types {
            Some(v) => Some(v.as_slice()),
            None => None,
        };
        let limit = match input.limit {
            Some(l) => l,
            None => 20,
        };
        assert(event_types_view(types) == opt_seq(input.event_types));
        self.sessions.list_events(input.session_id.as_str(), types, limit)
    }

    /// Scoped memory recall: at most the limit (8 unless given) of the active
    /// entries of the subject, of the given types, containing the query.
    pub fn retrieve_memory(&self, input: RetrieveMemoryInput) -> (r: Result<Vec<MemoryEntry>, MemoryError>)
        ensures
            r matches Ok(v) ==> {
                let wanted = |e: MemoryEntryView| recallable(e, input.subject_type@, input.subject_id@, opt_seq(input.memory_types), opt_chars(input.query));
                &&& v@.len() <= limit_or(input.limit, 8)
                &&& drawn_from(entry_views(v@), self.memory_store().entries(), wanted)
                &&& v@.len() < limit_or(input.limit, 8) ==> covers(entry_views(v@), self.memory_store().entries(), wanted)
            },
            r matches Ok(v) ==> forall|i: int| 0 <= i < v@.len() ==> {
                &&& (#[trigger] v@[i]).status == MemoryStatus::Active
                &&& v@[i].subject_type@ == input.subject_type@
                &&& v@[i].subject_id@ == input.subject_id@
                &&& (input.memory_types matches Some(ts) ==> ts@.contains(v@[i].memory_type))
                &&& (input.query matches Some(q) ==> occurs_in(lowercase_of(q@), lowercase_of(v@[i].content@)))
            },
            r matches Ok(v) ==> match input.limit {
                Some(l) => v@.len() <= l,
                None => v@.len() <= 8,
            },
            input.limit matches Some(l) ==> (r matches Ok(v) ==> (v@.len() < l ==> covers(entry_views(v@), self.memory_store().entries(),
                |e: MemoryEntryView| recallable(e, input.subject_type@, input.subject_id@, opt_seq(input.memory_types), opt_chars(input.query))))),
            self.memory_store().infallible() ==> r is Ok,
    {
        let types: Option<&[MemoryType]> = match &input.memory_types {
            Some(v) => Some(v.as_slice()),
            None => None,
        };
        let query: Option<&str> = match &input.query {
            Some(q) => Some(q.as_str()),
            None => None,
        };
        let limit = match input.limit {
            Some(l) => l,
            None => 8,
        };
        assert(memory_types_view(types) == opt_seq(input.memory_types));
        assert(query_view(query) == opt_chars(input.query));
        let r = self.memory.retrieve(input.subject_type.as_str(), input.subject_id.as_str(), types, query, limit);
        proof {
            let w1 = |e: MemoryEntryView| recallable(e, input.subject_type@, input.subject_id@, memory_types_view(types), query_view(query));
            let w2 = |e: MemoryEntryView| recallable(e, input.subject_type@, input.subject_id@, opt_seq(input.memory_types), opt_chars(input.query));
            assert(w1 == w2);
        }
        r
    }
}

impl<S: SessionStore, M: MemoryStore> SessionMemoryServer<S, M> {
    /// Writes a new memory entry under a fresh `mem_` identifier: version 1,
    /// active, of class `Internal` unless another is given.
    pub fn store_memory(&mut self, input: StoreMemoryInput) -> (r: Result<String, MemoryError>)
        ensures
            final(self).session_store() == old(self).session_store(),
            r matches Ok(id) ==> {
                let after = final(self).memory_store().entries();
                &&& fresh_id("mem_"@, id@)
                &&& after.contains_key(id@)
                &&& after == old(self).memory_store().entries().insert(id@, stored_entry(input, id, after[id@].created_at))
                &&& after[id@].memory_id == id
                &&& after[id@].memory_type == input.memory_type
                &&& after[id@].subject_type == input.subject_type
                &&& after[id@].subject_id == input.subject_id
                &&& after[id@].content == input.content
                &&& after[id@].source_session_id == input.source_session_id
                &&& after[id@].confidence == input.confidence
                &&& after[id@].version == 1
                &&& after[id@].status == MemoryStatus::Active
            },
            r is Err ==> final(self).memory_store().entries() == old(self).memory_store().entries(),
            old(self).memory_store().infallible() ==> r is Ok,
            final(self).memory_store().infallible() == old(self).memory_store().infallible(),
    {
        let now = utc_now();
        let memory_id = new_id("mem_");
        let data_class = match input.data_class {
            Some(d) => d,
            None => DataClass::Internal,
        };
        let entry = MemoryEntry {
            memory_id: memory_id.clone(),
            memory_type: input.memory_type,
            subject_type: input.subject_type,
            subject_id: input.subject_id,
            content: input.content,
            data_class,
            source_session_id: input.source_session_id,
            source_artifact_ids: Vec::new(),
            confidence: input.confidence,
            version: 1,
            status: MemoryStatus::Active,
            created_at: now,
            updated_at: now,
        };
        assert(entry@ == stored_entry(input, memory_id, now));
        let write = self.memory.put_memory(entry);
        or_store_error(write, memory_id)
    }

    /// Corrects a memory entry: new content, as its next version; the
    /// version it supersedes is kept in the history.
    pub fn update_memory(&mut self, input: UpdateMemoryInput) -> (r: Result<String, MemoryError>)
        requires
            old(self).memory_store().entries().contains_key(input.memory_id@)
                ==> old(self).memory_store().entries()[input.memory_id@].version < u32::MAX,
        ensures
            final(self).session_store() == old(self).session_store(),
            r matches Ok(id) ==> {
                let before = old(self).memory_store().entries();
                let after = final(self).memory_store().entries();
                &&& id == input.memory_id
                &&& before.contains_key(id@)
                &&& after == before.insert(id@, revised_entry(before[id@], input.content, after[id@].updated_at))
                &&& final(self).memory_store().history() == archived(old(self).memory_store().history(), id@, before[id@])
            },
            r matches Err(e) ==> final(self).memory_store().entries() == old(self).memory_store().entries()
                && final(self).memory_store().history() == old(self).memory_store().history()
                && absence_reported(e, old(self).memory_store().entries().contains_key(input.memory_id@)),
            old(self).memory_store().infallible() ==> (r is Ok <==> old(self).memory_store().entries().contains_key(input.memory_id@)),
            old(self).memory_store().infallible() ==> (r matches Err(e) ==> is_not_found_for(e, input.memory_id@)),
            final(self).memory_store().infallible() == old(self).memory_store().infallible(),
    {
        let read = self.memory.get_memory(input.memory_id.as_str());
        self.finish_update(read, input)
    }

    /// The write half of `update_memory`, given the entry it read: the next
    /// version with the new content is handed to the store, and the result
    /// is `Ok` exactly when the store took it (the history then grows).
    pub fn finish_update(&mut self, read: Result<MemoryEntry, MemoryError>, input: UpdateMemoryInput) -> (r: Result<String, MemoryError>)
        requires
            read matches Ok(entry) ==> entry.version < u32::MAX && entry.memory_id@ == input.memory_id@,
        ensures
            final(self).session_store() == old(self).session_store(),
            read matches Ok(entry) ==> (r is Ok <==> final(self).memory_store().history() != old(self).memory_store().history()),
            read matches Ok(entry) ==> (r matches Ok(id) ==> {
                    let before = old(self).memory_store().entries();
                    let after = final(self).memory_store().entries();
                    &&& id == input.memory_id
                    &&& before.contains_key(id@)
                    &&& after == before.insert(id@, revised_entry(entry@, input.content, after[id@].updated_at))
                    &&& final(self).memory_store().history() == archived(old(self).memory_store().history(), id@, before[id@])
                }),
            read matches Ok(entry) ==> (r matches Err(e) ==> final(self).memory_store().entries() == old(self).memory_store().entries()
                    && final(self).memory_store().history() == old(self).memory_store().history()
                    && absence_reported(e, old(self).memory_store().entries().contains_key(input.memory_id@))),
            read matches Ok(entry) ==> (old(self).memory_store().infallible() ==> (r is Ok <==> old(self).memory_store().entries().contains_key(input.memory_id@))),
            read matches Ok(entry) ==> (old(self).memory_store().infallible() ==> (r matches Err(e) ==> is_not_found_for(e, input.memory_id@))),
            final(self).memory_store().infallible() == old(self).memory_store().infallible(),
            read matches Err(e) ==> r == Err::<String, MemoryError>(e) && *final(self) == *old(self),
    {
        let mut entry = match read {
            Ok(e) => e,
            Err(e) => return Err(e),
        };
        let ghost found = entry@;
        entry.content = input.content;
        entry.version = entry.version + 1;
        entry.updated_at = utc_now();
        assert(entry@ == revised_entry(found, input.content, entry.updated_at));
        let ghost h0 = self.memory_store().history();
        let result = self.memory.update_memory(entry);
        proof {
            lemma_archive_grows(h0, input.memory_id@, old(self).memory_store().entries()[input.memory_id@]);
        }
        or_store_error(result, input.memory_id)
    }

    /// Marks a memory entry deleted; the reason is `not specified` unless
    /// given.
    pub fn delete_memory(&mut self, input: DeleteMemoryInput) -> (r: Result<DeletedMemory, MemoryError>)
        ensures
            final(self).session_store() == old(self).session_store(),
            r matches Ok(d) ==> {
                let before = old(self).memory_store().entries();
                let after = final(self).memory_store().entries();
                &&& d.memory_id == input.memory_id
                &&& d.reason@ == match input.reason {
                    Some(reason) => reason@,
                    None => "not specified"@,
                }
                &&& before.contains_key(input.memory_id@)
                &&& after == before.insert(input.memory_id@, MemoryEntryView {
                    status: MemoryStatus::Deleted,
                    updated_at: after[input.memory_id@].updated_at,
                    ..before[input.memory_id@]
                })
            },
            r matches Err(e) ==> final(self).memory_store().entries() == old(self).memory_store().entries()
                && absence_reported(e, old(self).memory_store().entries().contains_key(input.memory_id@)),
            old(self).memory_store().infallible() ==> (r is Ok <==> old(self).memory_store().entries().contains_key(input.memory_id@)),
            old(self).memory_store().infallible() ==> (r matches Err(e) ==> is_not_found_for(e, input.memory_id@)),
            final(self).memory_store().infallible() == old(self).memory_store().infallible(),
    {
        let write = self.memory.delete_memory(input.memory_id.as_str());
        let reason = match input.reason {
            Some(reason) => reason,
            None => String::from_str("not specified"),
        };
        or_store_error(write, DeletedMemory { memory_id: input.memory_id, reason })
    }

    /// Redacts a memory entry: its content is replaced by the redacted text
    /// and it is marked redacted, as its next version; the version it
    /// supersedes is kept in the history.
    pub fn redact_memory(&mut self, input: RedactMemoryInput) -> (r: Result<RedactedMemory, MemoryError>)
        requires
            old(self).memory_store().entries().contains_key(input.memory_id@)
                ==> old(self).memory_store().entries()[input.memory_id@].version < u32::MAX,
        ensures
            final(self).session_store() == old(self).session_store(),
            r matches Ok(d) ==> {
                let before = old(self).memory_store().entries();
                let after = final(self).memory_store().entries();
                &&& d.memory_id == input.memory_id
                &&& d.fields_removed@ == match input.fields_removed {
                    Some(f) => f@,
                    None => Seq::empty(),
                }
                &&& before.contains_key(input.memory_id@)
                &&& after == before.insert(input.memory_id@, redacted_entry(before[input.memory_id@], input.redacted_content, after[input.memory_id@].updated_at))
                &&& final(self).memory_store().history() == archived(old(self).memory_store().history(), input.memory_id@, before[input.memory_id@])
            },
            r matches Err(e) ==> final(self).memory_store().entries() == old(self).memory_store().entries()
                && final(self).memory_store().history() == old(self).memory_store().history()
                && absence_reported(e, old(self).memory_store().entries().contains_key(input.memory_id@)),
            old(self).memory_store().infallible() ==> (r is Ok <==> old(self).memory_store().entries().contains_key(input.memory_id@)),
            old(self).memory_store().infallible() ==> (r matches Err(e) ==> is_not_found_for(e, input.memory_id@)),
            final(self).memory_store().infallible() == old(self).memory_store().infallible(),
    {
        let read = self.memory.get_memory(input.memory_id.as_str());
        self.finish_redact(read, input)
    }

    /// The write half of `redact_memory`, given the entry it read: the
    /// redacted next version is handed to the store, and the result is `Ok`
    /// exactly when the store took it (the history then grows).
    pub fn finish_redact(&mut self, read: Result<MemoryEntry, MemoryError>, input: RedactMemoryInput) -> (r: Result<RedactedMemory, MemoryError>)
        requires
            read matches Ok(entry) ==> entry.version < u32::MAX && entry.memory_id@ == input.memory_id@,
        ensures
            final(self).session_store() == old(self).session_store(),
            read matches Ok(entry) ==> (r is Ok <==> final(self).memory_store().history() != old(self).memory_store().history()),
            read matches Ok(entry) ==> (r matches Ok(d) ==> {
                    let before = old(self).memory_store().entries();
                    let after = final(self).memory_store().entries();
                    &&& d.memory_id == input.memory_id
                    &&& d.fields_removed@ == match input.fields_removed {
                        Some(f) => f@,
                        None => Seq::empty(),
                    }
                    &&& before.contains_key(input.memory_id@)
                    &&& after == before.insert(input.memory_id@, redacted_entry(entry@, input.redacted_content, after[input.memory_id@].updated_at))
                    &&& final(self).memory_store().history() == archived(old(self).memory_store().history(), input.memory_id@, before[input.memory_id@])
                }),
            read matches Ok(entry) ==> (r matches Err(e) ==> final(self).memory_store().entries() == old(self).memory_store().entries()
                    && final(self).memory_store().history() == old(self).memory_store().history()
                    && absence_reported(e, old(self).memory_store().entries().contains_key(input.memory_id@))),
            read matches Ok(entry) ==> (old(self).memory_store().infallible() ==> (r is Ok <==> old(self).memory_store().entries().contains_key(input.memory_id@))),
            read matches Ok(entry) ==> (old(self).memory_store().infallible() ==> (r matches Err(e) ==> is_not_found_for(e, input.memory_id@))),
            final(self).memory_store().infallible() == old(self).memory_store().infallible(),
            read matches Err(e) ==> r == Err::<RedactedMemory, MemoryError>(e) && *final(self) == *old(self),
    {
        let mut entry = match read {
            Ok(e) => e,
            Err(e) => return Err(e),
        };
        let ghost found = entry@;
        entry.content = input.redacted_content;
        entry.status = MemoryStatus::Redacted;
        entry.version = entry.version + 1;
        entry.updated_at = utc_now();
        assert(entry@ == redacted_entry(found, input.redacted_content, entry.updated_at));
        let ghost h0 = self.memory_store().history();
        let result = self.memory.update_memory(entry);
        proof {
            lemma_archive_grows(h0, input.memory_id@, old(self).memory_store().entries()[input.memory_id@]);
        }
        let fields_removed = match input.fields_removed {
            Some(f) => f,
            None => Vec::new(),
        };
        or_store_error(result, RedactedMemory { memory_id: input.memory_id, fields_removed })
    }
}

impl<S: SessionStore, M: MemoryStore> SessionMemoryServer<S, M> {
    /// References to the active memory entries written from a session.
    pub fn list_memory_refs(&self, input: ListMemoryRefsInput) -> (r: Result<Vec<MemoryRef>, MemoryError>)
        ensures
            r matches Ok(v) ==> {
                let entries = self.memory_store().entries();
                &&& forall|i: int| 0 <= i < v@.len() ==> {
                    &&& entries.contains_key(#[trigger] v@[i].memory_id@)
                    &&& referenced_by(entries[v@[i].memory_id@], input.session_id@)
                    &&& entries[v@[i].memory_id@].status == MemoryStatus::Active
                    &&& entries[v@[i].memory_id@].source_session_id matches Some(s) && s@ == input.session_id@
                    &&& describes(v@[i], entries[v@[i].memory_id@])
                }
                &&& forall|i: int, j: int| 0 <= i < j < v@.len() ==> #[trigger] v@[i].memory_id@ != #[trigger] v@[j].memory_id@
                &&& forall|k: Seq<char>| #[trigger] entries.contains_key(k) && referenced_by(entries[k], input.session_id@)
                    ==> exists|i: int| 0 <= i < v@.len() && #[trigger] v@[i].memory_id@ == k
            },
            self.memory_store().infallible() ==> r is Ok,
    {
        let listed = self.memory.list_by_session(input.session_id.as_str());
        let r = memory_refs_of(listed);
        proof {
            if listed is Ok {
                let found = listed->Ok_0;
                let refs = r->Ok_0;
                let entries = self.memory_store().entries();
                let wanted = |e: MemoryEntryView| referenced_by(e, input.session_id@);
                assert forall|t: int| 0 <= t < refs@.len() implies {
                    &&& entries.contains_key(#[trigger] refs@[t].memory_id@)
                    &&& referenced_by(entries[refs@[t].memory_id@], input.session_id@)
                    &&& describes(refs@[t], entries[refs@[t].memory_id@])
                } by {
                    assert(describes(refs@[t], found@[t]@));
                    assert(entry_views(found@)[t] == found@[t]@);
                }
                assert forall|a: int, b: int| 0 <= a < b < refs@.len() implies #[trigger] refs@[a].memory_id@ != #[trigger] refs@[b].memory_id@ by {
                    assert(describes(refs@[a], found@[a]@));
                    assert(describes(refs@[b], found@[b]@));
                    assert(entry_views(found@)[a] == found@[a]@);
                    assert(entry_views(found@)[b] == found@[b]@);
                }
                assert forall|k: Seq<char>| #[trigger] entries.contains_key(k) && referenced_by(entries[k], input.session_id@)
                    implies exists|t: int| 0 <= t < refs@.len() && #[trigger] refs@[t].memory_id@ == k by {
                    assert(wanted(entries[k]));
                    let t = choose|t: int| 0 <= t < entry_views(found@).len() && #[trigger] entry_views(found@)[t].memory_id@ == k;
                    assert(entry_views(found@)[t] == found@[t]@);
                    assert(describes(refs@[t], found@[t]@));
                }
            }
        }
        r
    }

    /// Freezes a session for replay: stores a snapshot of its state, memory
    /// and artifact references and agent under a fresh `snap_` identifier.
    pub fn create_replay_snapshot(&mut self, input: CreateReplaySnapshotInput) -> (r: Result<SnapshotReceipt, MemoryError>)
        ensures
            final(self).memory_store() == old(self).memory_store(),
            final(self).session_store().sessions() == old(self).session_store().sessions(),
            final(self).session_store().events() == old(self).session_store().events(),
            r matches Ok(receipt) ==> {
                let sessions = old(self).session_store().sessions();
                let after = final(self).session_store().snapshots();
                &&& sessions.contains_key(input.session_id@)
                &&& receipt.session_id == input.session_id
                &&& receipt.state_version == sessions[input.session_id@].state_version
                &&& fresh_id("snap_"@, receipt.snapshot_id@)
                &&& after.contains_key(receipt.snapshot_id@)
                &&& after == old(self).session_store().snapshots().insert(
                    receipt.snapshot_id@,
                    frozen_snapshot(sessions[input.session_id@], receipt.snapshot_id, input.session_id, after[receipt.snapshot_id@].created_at),
                )
                &&& after[receipt.snapshot_id@].snapshot_id == receipt.snapshot_id
                &&& after[receipt.snapshot_id@].session_id == input.session_id
                &&& after[receipt.snapshot_id@].state_version == sessions[input.session_id@].state_version
                &&& after[receipt.snapshot_id@].workflow_state == sessions[input.session_id@].workflow_state
                &&& after[receipt.snapshot_id@].memory_refs == sessions[input.session_id@].memory_refs
                &&& after[receipt.snapshot_id@].artifact_refs == sessions[input.session_id@].artifact_refs
                &&& after[receipt.snapshot_id@].agent_id == sessions[input.session_id@].agent_id
                &&& after[receipt.snapshot_id@].agent_version == sessions[input.session_id@].agent_version
            },
            r matches Err(e) ==> final(self).session_store().snapshots() == old(self).session_store().snapshots()
                && absence_reported(e, old(self).session_store().sessions().contains_key(input.session_id@)),
            old(self).session_store().infallible() ==> (r is Ok <==> old(self).session_store().sessions().contains_key(input.session_id@)),
            old(self).session_store().infallible() ==> (r matches Err(e) ==> is_not_found_for(e, input.session_id@)),
            final(self).session_store().infallible() == old(self).session_store().infallible(),
    {
        let read = self.sessions.get_session(input.session_id.as_str());
        self.finish_snapshot(read, input)
    }

    /// The write half of `create_replay_snapshot`, given the session it
    /// read: the snapshot of that session is handed to the store under a
    /// fresh `snap_` identifier, and the store's error, if any, is handed on.
    pub fn finish_snapshot(&mut self, read: Result<Session, MemoryError>, input: CreateReplaySnapshotInput) -> (r: Result<SnapshotReceipt, MemoryError>)
        ensures
            final(self).memory_store() == old(self).memory_store(),
            final(self).session_store().sessions() == old(self).session_store().sessions(),
            final(self).session_store().events() == old(self).session_store().events(),
            read matches Ok(session) ==> (r matches Ok(receipt) ==> {
                    let after = final(self).session_store().snapshots();
                    &&& receipt.session_id == input.session_id
                    &&& receipt.state_version == session.state_version
                    &&& fresh_id("snap_"@, receipt.snapshot_id@)
                    &&& after.contains_key(receipt.snapshot_id@)
                    &&& after == old(self).session_store().snapshots().insert(
                        receipt.snapshot_id@,
                        frozen_snapshot(session@, receipt.snapshot_id, input.session_id, after[receipt.snapshot_id@].created_at),
                    )
                }),
            read matches Ok(session) ==> (r matches Err(e) ==> final(self).session_store().snapshots() == old(self).session_store().snapshots()
                    && !(e is NotFound)),
            read matches Ok(session) ==> (old(self).session_store().infallible() ==> r is Ok),
            final(self).session_store().infallible() == old(self).session_store().infallible(),
            read matches Err(e) ==> r == Err::<SnapshotReceipt, MemoryError>(e) && *final(self) == *old(self),
    {
        let session = match read {
            Ok(s) => s,
            Err(e) => return Err(e),
        };
        let snapshot_id = new_id("snap_");
        let snapshot = ReplaySnapshot {
            snapshot_id: snapshot_id.clone(),
            session_id: input.session_id.clone(),
            state_version: session.state_version,
            workflow_state: session.workflow_state.clone(),
            memory_refs: session.memory_refs.clone(),
            artifact_refs: session.artifact_refs.clone(),
            agent_id: session.agent_id.clone(),
            agent_version: session.agent_version.clone(),
            created_at: utc_now(),
        };
        proof {
            assert(snapshot.memory_refs@ =~= session.memory_refs@);
            assert(snapshot.artifact_refs@ =~= session.artifact_refs@);
            assert(snapshot@ == frozen_snapshot(session@, snapshot_id, input.session_id, snapshot.created_at));
        }
        let write = self.sessions.put_snapshot(snapshot);
        or_store_error(write, SnapshotReceipt {
            snapshot_id,
            session_id: input.session_id,
            state_version: session.state_version,
        })
    }

    /// Resumes a paused human-in-the-loop workflow: the session becomes
    /// active at its next state version, the payload (if any) is set as
    /// `resume_payload` in its workflow state, and a `SessionResumed` event is
    /// logged. A session that is not paused is left alone. Whether the two
    /// writes succeed is not reported: a resumed session is reported resumed
    /// either way.
    pub fn resume_session(&mut self, input: ResumeSessionInput) -> (r: ResumeOutcome)
        requires
            old(self).session_store().sessions().contains_key(input.session_id@)
                && old(self).session_store().sessions()[input.session_id@].status == SessionStatus::Paused
                ==> old(self).session_store().sessions()[input.session_id@].state_version < u32::MAX,
        ensures
            final(self).memory_store() == old(self).memory_store(),
            final(self).session_store().snapshots() == old(self).session_store().snapshots(),
            ({
                let before = old(self).session_store().sessions();
                let after = final(self).session_store().sessions();
                let log0 = old(self).session_store().events();
                let log1 = final(self).session_store().events();
                let sid = input.session_id@;
                match r {
                    ResumeOutcome::Failed(e) => {
                        &&& after == before
                        &&& log1 == log0
                        &&& absence_reported(e, before.contains_key(sid))
                    },
                    ResumeOutcome::NotPaused { session_id, status } => {
                        &&& before.contains_key(sid)
                        &&& session_id == input.session_id
                        &&& status == before[sid].status
                        &&& status != SessionStatus::Paused
                        &&& after == before
                        &&& log1 == log0
                    },
                    ResumeOutcome::Resumed { session_id } => {
                        let summary = match input.reason {
                            Some(reason) => reason@,
                            None => "Session resumed"@,
                        };
                        let changed = |at: Timestamp| resumed_session(before[sid], input.resume_payload, at);
                        &&& before.contains_key(sid)
                        &&& before[sid].status == SessionStatus::Paused
                        &&& session_id == input.session_id
                        &&& rewritten(before, after, sid, changed)
                        &&& audited(log0, log1, sid, EventType::SessionResumed, summary)
                        &&& old(self).session_store().infallible() ==> {
                            &&& replaced(before, after, sid, changed)
                            &&& appended_audit(log0, log1, sid, EventType::SessionResumed, summary)
                        }
                        &&& old(self).session_store().infallible() ==> {
                            let s0 = before[sid];
                            let s1 = after[sid];
                            &&& after.contains_key(sid)
                            &&& s1.status == SessionStatus::Active
                            &&& s1.state_version == s0.state_version + 1
                            &&& s1.session_id == s0.session_id
                            &&& s1.agent_id == s0.agent_id
                            &&& s1.agent_version == s0.agent_version
                            &&& s1.workflow_id == s0.workflow_id
                            &&& s1.current_node == s0.current_node
                            &&& s1.memory_refs == s0.memory_refs
                            &&& s1.artifact_refs == s0.artifact_refs
                            &&& s1.data_classes == s0.data_classes
                            &&& s1.created_at == s0.created_at
                            &&& input.resume_payload is None ==> s1.workflow_state == s0.workflow_state
                        }
                    },
                }
            }),
            old(self).session_store().infallible() ==> match r {
                ResumeOutcome::Failed(e) => is_not_found_for(e, input.session_id@),
                _ => old(self).session_store().sessions().contains_key(input.session_id@),
            },
            final(self).session_store().infallible() == old(self).session_store().infallible(),
    {
        let read = self.sessions.get_session(input.session_id.as_str());
        self.finish_resume(read, input)
    }

    /// The decision and write half of `resume_session`, given the session it
    /// read: a session that is not paused is reported as such with nothing
    /// written; a paused one is handed to the store resumed, the
    /// `SessionResumed` event is handed to the log, and it is reported
    /// resumed whatever the two writes return.
    pub fn finish_resume(&mut self, read: Result<Session, MemoryError>, input: ResumeSessionInput) -> (r: ResumeOutcome)
        requires
            read matches Ok(session) ==> session.session_id@ == input.session_id@
                && (session.status == SessionStatus::Paused ==> session.state_version < u32::MAX),
        ensures
            final(self).memory_store() == old(self).memory_store(),
            final(self).session_store().snapshots() == old(self).session_store().snapshots(),
            final(self).session_store().infallible() == old(self).session_store().infallible(),
            read matches Ok(session) ==> (session.status != SessionStatus::Paused ==> {
                    &&& r matches ResumeOutcome::NotPaused { session_id, status }
                        && session_id == input.session_id && status == session.status
                    &&& final(self).session_store().sessions() == old(self).session_store().sessions()
                    &&& final(self).session_store().events() == old(self).session_store().events()
                }),
            read matches Ok(session) ==> (session.status == SessionStatus::Paused ==> ({
                    let before = old(self).session_store().sessions();
                    let after = final(self).session_store().sessions();
                    let log0 = old(self).session_store().events();
                    let log1 = final(self).session_store().events();
                    let sid = input.session_id@;
                    let summary = match input.reason {
                        Some(reason) => reason@,
                        None => "Session resumed"@,
                    };
                    let changed = |at: Timestamp| resumed_session(session@, input.resume_payload, at);
                    &&& r matches ResumeOutcome::Resumed { session_id } && session_id == input.session_id
                    &&& rewritten(before, after, sid, changed)
                    &&& audited(log0, log1, sid, EventType::SessionResumed, summary)
                    &&& old(self).session_store().infallible() && before.contains_key(sid) ==> {
                        &&& replaced(before, after, sid, changed)
                        &&& appended_audit(log0, log1, sid, EventType::SessionResumed, summary)
                    }
                    &&& old(self).session_store().infallible() && before.contains_key(sid) ==> {
                        let s1 = after[sid];
                        &&& s1.status == SessionStatus::Active
                        &&& s1.state_version == session.state_version + 1
                        &&& s1.session_id == session.session_id
                        &&& s1.agent_id == session.agent_id
                        &&& s1.agent_version == session.agent_version
                        &&& s1.workflow_id == session.workflow_id
                        &&& s1.current_node == session.current_node
                        &&& s1.memory_refs == session.memory_refs@
                        &&& s1.artifact_refs == session.artifact_refs@
                        &&& s1.data_classes == session.data_classes@
                        &&& s1.created_at == session.created_at
                        &&& input.resume_payload is None ==> s1.workflow_state == session.workflow_state
                    }
                })),
            read matches Err(e) ==> r == ResumeOutcome::Failed(e) && *final(self) == *old(self),
    {
        let mut session = match read {
            Ok(s) => s,
            Err(e) => return ResumeOutcome::Failed(e),
        };
        if session.status != SessionStatus::Paused {
            return ResumeOutcome::NotPaused { session_id: input.session_id, status: session.status };
        }
        let ghost found = session@;
        session.status = SessionStatus::Active;
        session.state_version = session.state_version + 1;
        session.updated_at = utc_now();
        match input.resume_payload {
            Some(payload) => json_set_member(&mut session.workflow_state, "resume_payload", payload),
            None => {},
        }
        assert(session@ == resumed_session(found, input.resume_payload, session.updated_at));
        let _ = self.sessions.update_session(session);
        let summary = match input.reason {
            Some(reason) => reason,
            None => String::from_str("Session resumed"),
        };
        let event = SessionEvent {
            event_id: new_id("evt_"),
            session_id: input.session_id.clone(),
            sequence: 0,
            event_type: EventType::SessionResumed,
            actor: String::from_str("operator"),
            summary,
            data_class: None,
            created_at: utc_now(),
        };
        let ghost log0 = self.session_store().events();
        let _ = self.sessions.put_event(event);
        proof {
            let log1 = self.session_store().events();
            if log1 != log0 {
                assert(log1.drop_last() =~= log0);
            }
        }
        ResumeOutcome::Resumed { session_id: input.session_id }
    }

    /// Stops a session with an audit reason: the session is marked
    /// terminated and a `SessionTerminated` event is logged. Whether the two
    /// writes succeed is not reported: the termination is acknowledged
    /// either way.
    pub fn terminate_session(&mut self, input: TerminateSessionInput) -> (r: Result<TerminationReceipt, MemoryError>)
        ensures
            final(self).memory_store() == old(self).memory_store(),
            final(self).session_store().snapshots() == old(self).session_store().snapshots(),
            r matches Ok(t) ==> {
                let before = old(self).session_store().sessions();
                let after = final(self).session_store().sessions();
                let log0 = old(self).session_store().events();
                let log1 = final(self).session_store().events();
                let sid = input.session_id@;
                let changed = |at: Timestamp| terminated_session(before[sid], at);
                let summary = termination_summary(input.reason@, opt_chars(input.reason_code));
                &&& before.contains_key(sid)
                &&& t.session_id == input.session_id
                &&& t.reason == input.reason
                &&& rewritten(before, after, sid, changed)
                &&& audited(log0, log1, sid, EventType::SessionTerminated, summary)
                &&& old(self).session_store().infallible() ==> {
                    &&& replaced(before, after, sid, changed)
                    &&& appended_audit(log0, log1, sid, EventType::SessionTerminated, summary)
                }
                &&& old(self).session_store().infallible() ==> {
                    let s0 = before[sid];
                    let s1 = after[sid];
                    &&& after.contains_key(sid)
                    &&& s1.status == SessionStatus::Terminated
                    &&& s1.session_id == s0.session_id
                    &&& s1.agent_id == s0.agent_id
                    &&& s1.agent_version == s0.agent_version
                    &&& s1.workflow_id == s0.workflow_id
                    &&& s1.current_node == s0.current_node
                    &&& s1.state_version == s0.state_version
                    &&& s1.workflow_state == s0.workflow_state
                    &&& s1.memory_refs == s0.memory_refs
                    &&& s1.artifact_refs == s0.artifact_refs
                    &&& s1.data_classes == s0.data_classes
                    &&& s1.created_at == s0.created_at
                }
            },
            r matches Err(e) ==> final(self).session_store().sessions() == old(self).session_store().sessions()
                && final(self).session_store().events() == old(self).session_store().events()
                && absence_reported(e, old(self).session_store().sessions().contains_key(input.session_id@)),
            old(self).session_store().infallible() ==> (r is Ok <==> old(self).session_store().sessions().contains_key(input.session_id@)),
            old(self).session_store().infallible() ==> (r matches Err(e) ==> is_not_found_for(e, input.session_id@)),
            final(self).session_store().infallible() == old(self).session_store().infallible(),
    {
        let read = self.sessions.get_session(input.session_id.as_str());
        self.finish_terminate(read, input)
    }

    /// The write half of `terminate_session`, given the session it read: the
    /// session is handed to the store terminated, the `SessionTerminated`
    /// event is handed to the log, and the termination is acknowledged
    /// whatever the two writes return.
    pub fn finish_terminate(&mut self, read: Result<Session, MemoryError>, input: TerminateSessionInput) -> (r: Result<TerminationReceipt, MemoryError>)
        ensures
            final(self).memory_store() == old(self).memory_store(),
            final(self).session_store().snapshots() == old(self).session_store().snapshots(),
            final(self).session_store().infallible() == old(self).session_store().infallible(),
            read matches Err(e) ==> r == Err::<TerminationReceipt, MemoryError>(e) && *final(self) == *old(self),
            read matches Ok(session) ==> ({
                let before = old(self).session_store().sessions();
                let after = final(self).session_store().sessions();
                let log0 = old(self).session_store().events();
                let log1 = final(self).session_store().events();
                let key = session.session_id@;
                let changed = |at: Timestamp| terminated_session(session@, at);
                let summary = termination_summary(input.reason@, opt_chars(input.reason_code));
                &&& r matches Ok(t) && t.session_id == input.session_id && t.reason == input.reason
                &&& rewritten(before, after, key, changed)
                &&& audited(log0, log1, input.session_id@, EventType::SessionTerminated, summary)
                &&& old(self).session_store().infallible() && before.contains_key(key) ==> {
                    &&& replaced(before, after, key, changed)
                    &&& appended_audit(log0, log1, input.session_id@, EventType::SessionTerminated, summary)
                }
            }),
    {
        let mut session = match read {
            Ok(s) => s,
            Err(e) => return Err(e),
        };
        let ghost found = session@;
        session.status = SessionStatus::Terminated;
        session.updated_at = utc_now();
        assert(session@ == terminated_session(found, session.updated_at));
        let _ = self.sessions.update_session(session);
        let code = match &input.reason_code {
            Some(c) => c.clone(),
            None => String::from_str("manual"),
        };
        let summary = concat2(concat2(concat2(input.reason.as_str(), " (").as_str(), code.as_str()).as_str(), ")");
        assert(summary@ =~= termination_summary(input.reason@, opt_chars(input.reason_code)));
        let event = SessionEvent {
            event_id: new_id("evt_"),
            session_id: input.session_id.clone(),
            sequence: 0,
            event_type: EventType::SessionTerminated,
            actor: String::from_str("operator"),
            summary,
            data_class: None,
            created_at: utc_now(),
        };
        let ghost log0 = self.session_store().events();
        let _ = self.sessions.put_event(event);
        proof {
            let log1 = self.session_store().events();
            if log1 != log0 {
                assert(log1.drop_last() =~= log0);
            }
        }
        Ok(TerminationReceipt { session_id: input.session_id, reason: input.reason })
    }
}

} // verus!
