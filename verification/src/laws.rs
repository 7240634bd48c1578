use vstd::prelude::*;
use serde_json::Value;
use crate::server::{
    frozen_snapshot, redacted_entry, resumed_session, revised_entry, stored_entry,
    terminated_session, StoreMemoryInput,
};
use crate::server::{appended_audit, limit_or, replaced};
use crate::external::lowercase_of;
use crate::text::occurs_in;
use crate::store::covers;
use crate::store::{
    archived, drawn_from, event_selected, latest_events, recallable, referenced_by, versions_before,
};
use crate::types::{
    EventType, MemoryEntryView, MemoryStatus, MemoryType, ReplaySnapshotView, SessionEvent,
    SessionStatus, SessionView, Timestamp,
};

verus! {

/// A session read back after it was written is the session written, and
/// the other sessions are as they were.
pub proof fn law_session_read_after_write(sessions: Map<Seq<char>, SessionView>, s: SessionView, other: Seq<char>)
    ensures
        sessions.insert(s.session_id@, s).contains_key(s.session_id@),
        sessions.insert(s.session_id@, s)[s.session_id@] == s,
        other != s.session_id@ ==> (sessions.insert(s.session_id@, s).contains_key(other) == sessions.contains_key(other)
            && sessions.insert(s.session_id@, s)[other] == sessions[other]),
{
}

/// A memory entry read back after it was written is the entry written, and
/// the other entries are as they were.
pub proof fn law_memory_read_after_write(entries: Map<Seq<char>, MemoryEntryView>, e: MemoryEntryView, other: Seq<char>)
    ensures
        entries.insert(e.memory_id@, e).contains_key(e.memory_id@),
        entries.insert(e.memory_id@, e)[e.memory_id@] == e,
        other != e.memory_id@ ==> (entries.insert(e.memory_id@, e).contains_key(other) == entries.contains_key(other)
            && entries.insert(e.memory_id@, e)[other] == entries[other]),
{
}

/// What `store_memory` writes is recalled for its subject when no type or
/// query narrows the search, and its first version is 1.
pub proof fn law_stored_memory_is_recallable(input: StoreMemoryInput, memory_id: String, at: Timestamp)
    ensures
        recallable(stored_entry(input, memory_id, at), input.subject_type@, input.subject_id@, None, None),
        stored_entry(input, memory_id, at).version == 1,
        stored_entry(input, memory_id, at).created_at == stored_entry(input, memory_id, at).updated_at,
{
}

/// Deletion is logical: the entry keeps everything but its status and
/// update time, and it is never recalled or listed again.
pub proof fn law_deleted_memory_is_hidden(
    e: MemoryEntryView,
    at: Timestamp,
    subject_type: Seq<char>,
    subject_id: Seq<char>,
    types: Option<Seq<MemoryType>>,
    query: Option<Seq<char>>,
    session_id: Seq<char>,
)
    ensures
        ({
            let d = MemoryEntryView { status: MemoryStatus::Deleted, updated_at: at, ..e };
            &&& d.memory_id == e.memory_id
            &&& d.content == e.content
            &&& d.version == e.version
            &&& !recallable(d, subject_type, subject_id, types, query)
            &&& !referenced_by(d, session_id)
        }),
{
}

/// Redaction makes the next version, keeps the entry's identity and
/// subject, and the redacted entry is never recalled or listed again.
pub proof fn law_redacted_memory_is_hidden(
    e: MemoryEntryView,
    content: String,
    at: Timestamp,
    subject_type: Seq<char>,
    subject_id: Seq<char>,
    types: Option<Seq<MemoryType>>,
    query: Option<Seq<char>>,
    session_id: Seq<char>,
)
    requires
        e.version < u32::MAX,
    ensures
        ({
            let r = redacted_entry(e, content, at);
            &&& r.version == e.version + 1
            &&& r.memory_id == e.memory_id
            &&& r.subject_type == e.subject_type
            &&& r.subject_id == e.subject_id
            &&& r.created_at == e.created_at
            &&& r.content == content
            &&& !recallable(r, subject_type, subject_id, types, query)
            &&& !referenced_by(r, session_id)
        }),
{
}

/// An update makes the next version of the same entry: only its content,
/// version and update time change.
pub proof fn law_update_is_next_version(e: MemoryEntryView, content: String, at: Timestamp)
    requires
        e.version < u32::MAX,
    ensures
        revised_entry(e, content, at).version == e.version + 1,
        revised_entry(e, content, at) == (MemoryEntryView { content: content, version: (e.version + 1) as u32, updated_at: at, ..e }),
        revised_entry(e, content, at).status == e.status,
{
}

/// Listing returns at most `limit` events, each from the log and each of the
/// requested session and types.
pub proof fn law_listed_events_are_bounded_and_selected(
    log: Seq<SessionEvent>,
    session_id: Seq<char>,
    types: Option<Seq<EventType>>,
    limit: nat,
)
    ensures
        latest_events(log, session_id, types, limit).len() <= limit,
        forall|i: int| 0 <= i < latest_events(log, session_id, types, limit).len() ==> {
            &&& event_selected(#[trigger] latest_events(log, session_id, types, limit)[i], session_id, types)
            &&& log.contains(latest_events(log, session_id, types, limit)[i])
        },
    decreases log.len(),
{
    if log.len() == 0 || limit == 0 {
    } else {
        let rest = log.drop_last();
        if event_selected(log.last(), session_id, types) {
            law_listed_events_are_bounded_and_selected(rest, session_id, types, (limit - 1) as nat);
            let l = latest_events(log, session_id, types, limit);
            assert forall|i: int| 0 <= i < l.len() implies {
                &&& event_selected(#[trigger] l[i], session_id, types)
                &&& log.contains(l[i])
            } by {
                if i == 0 {
                    assert(log[log.len() - 1] == log.last());
                } else {
                    let x = l[i];
                    assert(x == latest_events(rest, session_id, types, (limit - 1) as nat)[i - 1]);
                    let j = choose|j: int| 0 <= j < rest.len() && rest[j] == x;
                    assert(log[j] == x);
                }
            }
        } else {
            law_listed_events_are_bounded_and_selected(rest, session_id, types, limit);
            let l = latest_events(log, session_id, types, limit);
            assert forall|i: int| 0 <= i < l.len() implies {
                &&& event_selected(#[trigger] l[i], session_id, types)
                &&& log.contains(l[i])
            } by {
                let x = l[i];
                let j = choose|j: int| 0 <= j < rest.len() && rest[j] == x;
                assert(log[j] == x);
            }
        }
    }
}

/// Events come newest first: an event just logged for a session is the
/// first one listed for it.
pub proof fn law_newest_event_listed_first(
    log: Seq<SessionEvent>,
    e: SessionEvent,
    types: Option<Seq<EventType>>,
    limit: nat,
)
    requires
        event_selected(e, e.session_id@, types),
        limit > 0,
    ensures
        latest_events(log.push(e), e.session_id@, types, limit).len() > 0,
        latest_events(log.push(e), e.session_id@, types, limit)[0] == e,
{
    assert(log.push(e).last() == e);
    assert(log.push(e).drop_last() =~= log);
}

/// Resuming makes a session active at its next state version, so it cannot
/// be resumed a second time.
pub proof fn law_resumed_session_is_active(s: SessionView, payload: Option<Value>, at: Timestamp)
    requires
        s.status == SessionStatus::Paused,
        s.state_version < u32::MAX,
    ensures
        resumed_session(s, payload, at).status == SessionStatus::Active,
        resumed_session(s, payload, at).status != SessionStatus::Paused,
        resumed_session(s, payload, at).state_version == s.state_version + 1,
        resumed_session(s, payload, at).session_id == s.session_id,
        payload is None ==> resumed_session(s, payload, at).workflow_state == s.workflow_state,
{
}

/// Terminating always leaves the session terminated, and terminating it
/// again changes nothing but its update time.
pub proof fn law_termination_is_final(s: SessionView, t1: Timestamp, t2: Timestamp)
    ensures
        terminated_session(s, t1).status == SessionStatus::Terminated,
        terminated_session(terminated_session(s, t1), t2) == terminated_session(s, t2),
        terminated_session(s, t1).state_version == s.state_version,
{
}

/// A replay snapshot holds the session's state version, workflow state,
/// references and agent as they were when it was taken.
pub proof fn law_snapshot_mirrors_session(s: SessionView, snapshot_id: String, session_id: String, at: Timestamp)
    ensures
        ({
            let f: ReplaySnapshotView = frozen_snapshot(s, snapshot_id, session_id, at);
            &&& f.state_version == s.state_version
            &&& f.workflow_state == s.workflow_state
            &&& f.memory_refs == s.memory_refs
            &&& f.artifact_refs == s.artifact_refs
            &&& f.agent_id == s.agent_id
            &&& f.agent_version == s.agent_version
        }),
{
}

/// Redaction keeps history: the version it supersedes is filed as the
/// newest earlier version, the earlier versions already filed stay as they
/// were, and no other entry's history changes.
pub proof fn law_redaction_keeps_prior_version(
    history: Map<Seq<char>, Seq<MemoryEntryView>>,
    entries: Map<Seq<char>, MemoryEntryView>,
    memory_id: Seq<char>,
    content: String,
    at: Timestamp,
    other: Seq<char>,
)
    requires
        entries.contains_key(memory_id),
        entries[memory_id].version < u32::MAX,
    ensures
        ({
            let after = entries.insert(memory_id, redacted_entry(entries[memory_id], content, at));
            let kept = versions_before(archived(history, memory_id, entries[memory_id]), memory_id);
            let earlier = versions_before(history, memory_id);
            &&& after[memory_id].status == MemoryStatus::Redacted
            &&& after[memory_id].version == entries[memory_id].version + 1
            &&& kept.len() == earlier.len() + 1
            &&& kept.last() == entries[memory_id]
            &&& kept.take(earlier.len() as int) == earlier
            &&& other != memory_id ==> versions_before(archived(history, memory_id, entries[memory_id]), other)
                == versions_before(history, other)
        }),
{
    let kept = versions_before(archived(history, memory_id, entries[memory_id]), memory_id);
    let earlier = versions_before(history, memory_id);
    assert(kept.take(earlier.len() as int) =~= earlier);
}

/// An entry after a run of updates with the given contents, made at the
/// given instants.
pub open spec fn updated_through(e: MemoryEntryView, contents: Seq<String>, times: Seq<Timestamp>) -> MemoryEntryView
    decreases contents.len(),
{
    if contents.len() == 0 || times.len() == 0 {
        e
    } else {
        revised_entry(updated_through(e, contents.drop_last(), times.drop_last()), contents.last(), times.last())
    }
}

/// The history after the same run of updates: each files the version it
/// supersedes.
pub open spec fn archived_through(
    history: Map<Seq<char>, Seq<MemoryEntryView>>,
    memory_id: Seq<char>,
    e: MemoryEntryView,
    contents: Seq<String>,
    times: Seq<Timestamp>,
) -> Map<Seq<char>, Seq<MemoryEntryView>>
    decreases contents.len(),
{
    if contents.len() == 0 || times.len() == 0 {
        history
    } else {
        archived(
            archived_through(history, memory_id, e, contents.drop_last(), times.drop_last()),
            memory_id,
            updated_through(e, contents.drop_last(), times.drop_last()),
        )
    }
}

/// Each update adds exactly one version: after `k` updates the entry is at
/// version `k` past where it started, holds the last content, keeps its
/// identity, status and creation time, and `k` more earlier versions are
/// kept.
pub proof fn law_updates_add_one_version_each(
    history: Map<Seq<char>, Seq<MemoryEntryView>>,
    e: MemoryEntryView,
    contents: Seq<String>,
    times: Seq<Timestamp>,
)
    requires
        contents.len() == times.len(),
        e.version + contents.len() <= u32::MAX,
    ensures
        updated_through(e, contents, times).version == e.version + contents.len(),
        contents.len() > 0 ==> updated_through(e, contents, times).content == contents.last(),
        updated_through(e, contents, times).memory_id == e.memory_id,
        updated_through(e, contents, times).status == e.status,
        updated_through(e, contents, times).created_at == e.created_at,
        versions_before(archived_through(history, e.memory_id@, e, contents, times), e.memory_id@).len()
            == versions_before(history, e.memory_id@).len() + contents.len(),
    decreases contents.len(),
{
    if contents.len() > 0 {
        law_updates_add_one_version_each(history, e, contents.drop_last(), times.drop_last());
    }
}

/// After a paused session is resumed it is active at its next state
/// version and no longer paused, so resuming it again is refused; the
/// other sessions are untouched.
pub proof fn law_second_resume_refused(
    before: Map<Seq<char>, SessionView>,
    after: Map<Seq<char>, SessionView>,
    session_id: Seq<char>,
    payload: Option<Value>,
    other: Seq<char>,
)
    requires
        before.contains_key(session_id),
        before[session_id].status == SessionStatus::Paused,
        before[session_id].state_version < u32::MAX,
        replaced(before, after, session_id, |at: Timestamp| resumed_session(before[session_id], payload, at)),
    ensures
        after[session_id].status == SessionStatus::Active,
        after[session_id].status != SessionStatus::Paused,
        after[session_id].state_version == before[session_id].state_version + 1,
        other != session_id ==> after.contains_key(other) == before.contains_key(other) && after[other] == before[other],
{
}

/// How many events of a kind the log holds for a session.
pub open spec fn count_events(log: Seq<SessionEvent>, session_id: Seq<char>, kind: EventType) -> nat
    decreases log.len(),
{
    if log.len() == 0 {
        0
    } else {
        count_events(log.drop_last(), session_id, kind) + if log.last().session_id@ == session_id
            && log.last().event_type == kind {
            1nat
        } else {
            0nat
        }
    }
}

/// An audit event adds exactly one event of its kind for its session.
pub proof fn law_audit_adds_one_event(
    log0: Seq<SessionEvent>,
    log1: Seq<SessionEvent>,
    session_id: Seq<char>,
    kind: EventType,
    summary: Seq<char>,
)
    requires
        appended_audit(log0, log1, session_id, kind, summary),
    ensures
        count_events(log1, session_id, kind) == count_events(log0, session_id, kind) + 1,
{
}

/// A stored snapshot is unaffected by later session writes, which leave the
/// snapshots as they were: it still holds the state version and workflow
/// state the session had when it was taken.
pub proof fn law_snapshot_survives_session_changes(
    snapshots_then: Map<Seq<char>, ReplaySnapshotView>,
    snapshots_now: Map<Seq<char>, ReplaySnapshotView>,
    snapshot_id: String,
    s: SessionView,
    session_id: String,
    at: Timestamp,
)
    requires
        snapshots_then.contains_key(snapshot_id@),
        snapshots_then[snapshot_id@] == frozen_snapshot(s, snapshot_id, session_id, at),
        snapshots_now == snapshots_then,
    ensures
        snapshots_now.contains_key(snapshot_id@),
        snapshots_now[snapshot_id@].state_version == s.state_version,
        snapshots_now[snapshot_id@].workflow_state == s.workflow_state,
{
}

/// A redacted entry is neither recalled nor listed for its session: no
/// result drawn from the entries after redaction holds its identifier.
pub proof fn law_redacted_not_recalled(
    entries: Map<Seq<char>, MemoryEntryView>,
    memory_id: Seq<char>,
    content: String,
    at: Timestamp,
    found: Seq<MemoryEntryView>,
    subject_type: Seq<char>,
    subject_id: Seq<char>,
    types: Option<Seq<MemoryType>>,
    query: Option<Seq<char>>,
    listed: Seq<MemoryEntryView>,
    session_id: Seq<char>,
)
    requires
        entries.contains_key(memory_id),
        entries[memory_id].version < u32::MAX,
        drawn_from(found, entries.insert(memory_id, redacted_entry(entries[memory_id], content, at)),
            |e: MemoryEntryView| recallable(e, subject_type, subject_id, types, query)),
        drawn_from(listed, entries.insert(memory_id, redacted_entry(entries[memory_id], content, at)),
            |e: MemoryEntryView| referenced_by(e, session_id)),
    ensures
        forall|i: int| 0 <= i < found.len() ==> #[trigger] found[i].memory_id@ != memory_id,
        forall|i: int| 0 <= i < listed.len() ==> #[trigger] listed[i].memory_id@ != memory_id,
{
    let after = entries.insert(memory_id, redacted_entry(entries[memory_id], content, at));
    assert forall|i: int| 0 <= i < found.len() implies #[trigger] found[i].memory_id@ != memory_id by {
        if found[i].memory_id@ == memory_id {
            assert(after[memory_id].status == MemoryStatus::Redacted);
        }
    }
    assert forall|i: int| 0 <= i < listed.len() implies #[trigger] listed[i].memory_id@ != memory_id by {
        if listed[i].memory_id@ == memory_id {
            assert(after[memory_id].status == MemoryStatus::Redacted);
        }
    }
}

/// What one successful `update_memory` call leaves, as its contract states
/// it: the entry's next version with the given content, and the superseded
/// version filed.
pub open spec fn one_update(
    entries0: Map<Seq<char>, MemoryEntryView>,
    history0: Map<Seq<char>, Seq<MemoryEntryView>>,
    entries1: Map<Seq<char>, MemoryEntryView>,
    history1: Map<Seq<char>, Seq<MemoryEntryView>>,
    memory_id: Seq<char>,
    content: String,
) -> bool {
    &&& entries0.contains_key(memory_id)
    &&& entries1.contains_key(memory_id)
    &&& entries1 == entries0.insert(memory_id, revised_entry(entries0[memory_id], content, entries1[memory_id].updated_at))
    &&& history1 == archived(history0, memory_id, entries0[memory_id])
}

/// Over a run of successful updates of one entry, each call adds exactly one
/// version: after `k` calls the entry is `k` versions on, holds the last
/// content, keeps its identifier, status and creation time, and `k` more
/// earlier versions are kept.
pub proof fn law_run_of_updates(
    entries: Seq<Map<Seq<char>, MemoryEntryView>>,
    histories: Seq<Map<Seq<char>, Seq<MemoryEntryView>>>,
    memory_id: Seq<char>,
    contents: Seq<String>,
)
    requires
        entries.len() == contents.len() + 1,
        histories.len() == entries.len(),
        entries[0].contains_key(memory_id),
        entries[0][memory_id].version + contents.len() <= u32::MAX,
        forall|j: int| 0 <= j < contents.len() ==> #[trigger] one_update(
            entries[j], histories[j], entries[j + 1], histories[j + 1], memory_id, contents[j]),
    ensures
        ({
            let first = entries[0][memory_id];
            let last = entries.last()[memory_id];
            &&& entries.last().contains_key(memory_id)
            &&& last.version == first.version + contents.len()
            &&& contents.len() > 0 ==> last.content == contents.last()
            &&& last.memory_id == first.memory_id
            &&& last.status == first.status
            &&& last.created_at == first.created_at
            &&& versions_before(histories.last(), memory_id).len()
                == versions_before(histories[0], memory_id).len() + contents.len()
        }),
{
    lemma_run_prefix(entries, histories, memory_id, contents, contents.len() as int);
}

proof fn lemma_run_prefix(
    entries: Seq<Map<Seq<char>, MemoryEntryView>>,
    histories: Seq<Map<Seq<char>, Seq<MemoryEntryView>>>,
    memory_id: Seq<char>,
    contents: Seq<String>,
    n: int,
)
    requires
        0 <= n <= contents.len(),
        entries.len() == contents.len() + 1,
        histories.len() == entries.len(),
        entries[0].contains_key(memory_id),
        entries[0][memory_id].version + contents.len() <= u32::MAX,
        forall|j: int| 0 <= j < contents.len() ==> #[trigger] one_update(
            entries[j], histories[j], entries[j + 1], histories[j + 1], memory_id, contents[j]),
    ensures
        entries[n].contains_key(memory_id),
        entries[n][memory_id].version == entries[0][memory_id].version + n,
        n > 0 ==> entries[n][memory_id].content == contents[n - 1],
        entries[n][memory_id].memory_id == entries[0][memory_id].memory_id,
        entries[n][memory_id].status == entries[0][memory_id].status,
        entries[n][memory_id].created_at == entries[0][memory_id].created_at,
        versions_before(histories[n], memory_id).len() == versions_before(histories[0], memory_id).len() + n,
    decreases n,
{
    if n > 0 {
        lemma_run_prefix(entries, histories, memory_id, contents, n - 1);
        let j = n - 1;
        assert(one_update(entries[j], histories[j], entries[j + 1], histories[j + 1], memory_id, contents[j]));
        assert(j + 1 == n);
    }
}

/// Resuming a paused session whose log held no `SessionResumed` event, then
/// asking again (refused, with the log left as it was), leaves exactly one
/// such event for the session.
pub proof fn law_one_resume_event(
    log0: Seq<SessionEvent>,
    log1: Seq<SessionEvent>,
    log2: Seq<SessionEvent>,
    session_id: Seq<char>,
    summary: Seq<char>,
)
    requires
        count_events(log0, session_id, EventType::SessionResumed) == 0,
        appended_audit(log0, log1, session_id, EventType::SessionResumed, summary),
        log2 == log1,
    ensures
        count_events(log2, session_id, EventType::SessionResumed) == 1,
{
    law_audit_adds_one_event(log0, log1, session_id, EventType::SessionResumed, summary);
}

/// Recall applies its filters together and independently: an entry is
/// recalled exactly when it is active, belongs to the subject, has one of the
/// requested types (when types are given) and, when a query is given, its
/// lower-cased content contains the lower-cased query.
pub proof fn law_recall_filters_apply_together(
    e: MemoryEntryView,
    subject_type: Seq<char>,
    subject_id: Seq<char>,
    types: Option<Seq<MemoryType>>,
    query: Option<Seq<char>>,
)
    ensures
        recallable(e, subject_type, subject_id, types, query) <==> {
            &&& e.status == MemoryStatus::Active
            &&& e.subject_type@ == subject_type
            &&& e.subject_id@ == subject_id
            &&& (types matches Some(ts) ==> ts.contains(e.memory_type))
            &&& (query matches Some(q) ==> occurs_in(lowercase_of(q), lowercase_of(e.content@)))
        },
        types matches Some(ts) && !ts.contains(e.memory_type) ==> !recallable(e, subject_type, subject_id, types, query),
        query matches Some(q) && !occurs_in(lowercase_of(q), lowercase_of(e.content@))
            ==> !recallable(e, subject_type, subject_id, types, query),
{
}

/// Every entry a recall returns passes every filter asked for: it is active,
/// of the subject, of a requested type and contains the query.
pub proof fn law_recalled_entries_pass_every_filter(
    entries: Map<Seq<char>, MemoryEntryView>,
    found: Seq<MemoryEntryView>,
    subject_type: Seq<char>,
    subject_id: Seq<char>,
    types: Option<Seq<MemoryType>>,
    query: Option<Seq<char>>,
)
    requires
        drawn_from(found, entries, |e: MemoryEntryView| recallable(e, subject_type, subject_id, types, query)),
    ensures
        forall|i: int| 0 <= i < found.len() ==> {
            &&& (#[trigger] found[i]).status == MemoryStatus::Active
            &&& found[i].subject_type@ == subject_type
            &&& found[i].subject_id@ == subject_id
            &&& (types matches Some(ts) ==> ts.contains(found[i].memory_type))
            &&& (query matches Some(q) ==> occurs_in(lowercase_of(q), lowercase_of(found[i].content@)))
        },
{
    assert forall|i: int| 0 <= i < found.len() implies {
        &&& (#[trigger] found[i]).status == MemoryStatus::Active
        &&& found[i].subject_type@ == subject_type
        &&& found[i].subject_id@ == subject_id
        &&& (types matches Some(ts) ==> ts.contains(found[i].memory_type))
        &&& (query matches Some(q) ==> occurs_in(lowercase_of(q), lowercase_of(found[i].content@)))
    } by {
        assert(entries.contains_key(found[i].memory_id@));
    }
}

/// `store_memory` writes what it was given: the entry carries the input's
/// type, subject, content, source session and confidence, and an entry
/// stored from a session is then listed for that session.
pub proof fn law_stored_memory_keeps_its_input(
    before: Map<Seq<char>, MemoryEntryView>,
    input: StoreMemoryInput,
    memory_id: String,
    at: Timestamp,
    listed: Seq<MemoryEntryView>,
)
    ensures
        stored_entry(input, memory_id, at).memory_id == memory_id,
        stored_entry(input, memory_id, at).memory_type == input.memory_type,
        stored_entry(input, memory_id, at).subject_type == input.subject_type,
        stored_entry(input, memory_id, at).subject_id == input.subject_id,
        stored_entry(input, memory_id, at).content == input.content,
        stored_entry(input, memory_id, at).source_session_id == input.source_session_id,
        stored_entry(input, memory_id, at).confidence == input.confidence,
        input.source_session_id matches Some(s) ==> (covers(listed, before.insert(memory_id@, stored_entry(input, memory_id, at)),
            |e: MemoryEntryView| referenced_by(e, s@)) ==> exists|i: int| 0 <= i < listed.len() && listed[i].memory_id@ == memory_id@),
{
    if input.source_session_id is Some {
        let s = input.source_session_id->0;
        let after = before.insert(memory_id@, stored_entry(input, memory_id, at));
        assert(after.contains_key(memory_id@));
        assert(referenced_by(after[memory_id@], s@));
    }
}

/// A limit that is given is used as it is; the default applies only when
/// none is given.
pub proof fn law_given_limit_is_used(limit: Option<usize>, default: usize)
    ensures
        limit matches Some(l) ==> limit_or(limit, default) == l,
        limit is None ==> limit_or(limit, default) == default,
{
}

/// How many events of the log are listed for the session and types when no
/// limit cuts them short.
pub open spec fn selected_count(log: Seq<SessionEvent>, session_id: Seq<char>, types: Option<Seq<EventType>>) -> nat
    decreases log.len(),
{
    if log.len() == 0 {
        0
    } else {
        selected_count(log.drop_last(), session_id, types) + if event_selected(log.last(), session_id, types) {
            1nat
        } else {
            0nat
        }
    }
}

/// A listing gives as many events as the limit allows: all the selected
/// events when the limit is at least their number, else exactly `limit`.
pub proof fn law_listing_length(
    log: Seq<SessionEvent>,
    session_id: Seq<char>,
    types: Option<Seq<EventType>>,
    limit: nat,
)
    ensures
        latest_events(log, session_id, types, limit).len() == if limit < selected_count(log, session_id, types) {
            limit
        } else {
            selected_count(log, session_id, types)
        },
    decreases log.len(),
{
    if log.len() == 0 || limit == 0 {
    } else if event_selected(log.last(), session_id, types) {
        law_listing_length(log.drop_last(), session_id, types, (limit - 1) as nat);
    } else {
        law_listing_length(log.drop_last(), session_id, types, limit);
    }
}

/// A memory entry is referenced by a session exactly when it is active and
/// its source session is that session, character for character; so no
/// entry is referenced by two different sessions.
pub proof fn law_reference_is_by_exact_session(e: MemoryEntryView, session_id: Seq<char>, other: Seq<char>)
    ensures
        referenced_by(e, session_id) <==> (e.status == MemoryStatus::Active && e.source_session_id is Some
            && e.source_session_id->0@ == session_id),
        e.source_session_id is None ==> !referenced_by(e, session_id),
        other != session_id ==> !(referenced_by(e, session_id) && referenced_by(e, other)),
{
}

/// Resuming changes only the status, the state version, the update time
/// and (with a payload) the workflow state: the node, agent, workflow,
/// references, data classes and creation time stay as they were.
pub proof fn law_resume_keeps_the_rest(s: SessionView, payload: Option<Value>, at: Timestamp)
    requires
        s.state_version < u32::MAX,
    ensures
        ({
            let r = resumed_session(s, payload, at);
            &&& r.status == SessionStatus::Active
            &&& r.state_version == s.state_version + 1
            &&& r.updated_at == at
            &&& r.session_id == s.session_id
            &&& r.agent_id == s.agent_id
            &&& r.agent_version == s.agent_version
            &&& r.workflow_id == s.workflow_id
            &&& r.current_node == s.current_node
            &&& r.memory_refs == s.memory_refs
            &&& r.artifact_refs == s.artifact_refs
            &&& r.data_classes == s.data_classes
            &&& r.created_at == s.created_at
            &&& payload is None ==> r.workflow_state == s.workflow_state
        }),
{
}

/// Terminating changes only the status and the update time: the state
/// version, workflow state, node, agent, references and creation time stay
/// as they were.
pub proof fn law_termination_keeps_the_rest(s: SessionView, at: Timestamp)
    ensures
        ({
            let t = terminated_session(s, at);
            &&& t.status == SessionStatus::Terminated
            &&& t.updated_at == at
            &&& t.session_id == s.session_id
            &&& t.agent_id == s.agent_id
            &&& t.agent_version == s.agent_version
            &&& t.workflow_id == s.workflow_id
            &&& t.current_node == s.current_node
            &&& t.state_version == s.state_version
            &&& t.workflow_state == s.workflow_state
            &&& t.memory_refs == s.memory_refs
            &&& t.artifact_refs == s.artifact_refs
            &&& t.data_classes == s.data_classes
            &&& t.created_at == s.created_at
        }),
{
}

/// Redaction changes only the content, status, version and update time:
/// the entry's type, class, source session, artifacts and confidence stay.
pub proof fn law_redaction_keeps_the_rest(e: MemoryEntryView, content: String, at: Timestamp)
    requires
        e.version < u32::MAX,
    ensures
        ({
            let r = redacted_entry(e, content, at);
            &&& r.content == content
            &&& r.status == MemoryStatus::Redacted
            &&& r.version == e.version + 1
            &&& r.updated_at == at
            &&& r.memory_id == e.memory_id
            &&& r.memory_type == e.memory_type
            &&& r.subject_type == e.subject_type
            &&& r.subject_id == e.subject_id
            &&& r.data_class == e.data_class
            &&& r.source_session_id == e.source_session_id
            &&& r.source_artifact_ids == e.source_artifact_ids
            &&& r.confidence == e.confidence
            &&& r.created_at == e.created_at
        }),
{
}

/// A snapshot is filed under the identifier it was given, for the session
/// it was taken of, at the instant it was taken.
pub proof fn law_snapshot_is_labelled(s: SessionView, snapshot_id: String, session_id: String, at: Timestamp)
    ensures
        frozen_snapshot(s, snapshot_id, session_id, at).snapshot_id == snapshot_id,
        frozen_snapshot(s, snapshot_id, session_id, at).session_id == session_id,
        frozen_snapshot(s, snapshot_id, session_id, at).created_at == at,
{
}

} // verus!
