use vstd::prelude::*;
use crate::error::MemoryError;
use crate::external::lowercase_of;
use crate::text::occurs_in;
use crate::types::{
    EventType, MemoryEntry, MemoryEntryView, MemoryStatus, MemoryType, ReplaySnapshot,
    ReplaySnapshotView, Session, SessionEvent, SessionView,
};

verus! {

/// The optional list of event types, as a sequence.
pub open spec fn event_types_view(types: Option<&[EventType]>) -> Option<Seq<EventType>> {
    match types {
        Some(ts) => Some(ts@),
        None => None,
    }
}

/// The optional list of memory types, as a sequence.
pub open spec fn memory_types_view(types: Option<&[MemoryType]>) -> Option<Seq<MemoryType>> {
    match types {
        Some(ts) => Some(ts@),
        None => None,
    }
}

/// The optional query text, as characters.
pub open spec fn query_view(query: Option<&str>) -> Option<Seq<char>> {
    match query {
        Some(q) => Some(q@),
        None => None,
    }
}

/// An error that says "not found" only when the record is absent.
pub open spec fn absence_reported(e: MemoryError, present: bool) -> bool {
    e is NotFound ==> !present
}

/// The error that names a missing record by its identifier.
pub open spec fn is_not_found_for(e: MemoryError, id: Seq<char>) -> bool {
    e matches MemoryError::NotFound(m) && m@ == id
}

/// An event is listed for `session_id` when it belongs to that session and,
/// if types are given, its type is one of them.
pub open spec fn event_selected(e: SessionEvent, session_id: Seq<char>, types: Option<Seq<EventType>>) -> bool {
    &&& e.session_id@ == session_id
    &&& match types {
        Some(ts) => ts.contains(e.event_type),
        None => true,
    }
}

/// The newest `limit` events of `log` that are listed for `session_id`,
/// newest first.
pub open spec fn latest_events(
    log: Seq<SessionEvent>,
    session_id: Seq<char>,
    types: Option<Seq<EventType>>,
    limit: nat,
) -> Seq<SessionEvent>
    decreases log.len(),
{
    if log.len() == 0 || limit == 0 {
        Seq::empty()
    } else if event_selected(log.last(), session_id, types) {
        seq![log.last()] + latest_events(log.drop_last(), session_id, types, (limit - 1) as nat)
    } else {
        latest_events(log.drop_last(), session_id, types, limit)
    }
}

/// A memory entry is recalled for a subject when it is active, belongs to
/// that subject, has one of the requested types (if any) and, if a query is
/// given, contains it ignoring case.
pub open spec fn recallable(
    e: MemoryEntryView,
    subject_type: Seq<char>,
    subject_id: Seq<char>,
    types: Option<Seq<MemoryType>>,
    query: Option<Seq<char>>,
) -> bool {
    &&& e.status == MemoryStatus::Active
    &&& e.subject_type@ == subject_type
    &&& e.subject_id@ == subject_id
    &&& match types {
        Some(ts) => ts.contains(e.memory_type),
        None => true,
    }
    &&& match query {
        Some(q) => occurs_in(lowercase_of(q), lowercase_of(e.content@)),
        None => true,
    }
}

/// A memory entry is referenced by a session when it is active and was
/// written from that session.
pub open spec fn referenced_by(e: MemoryEntryView, session_id: Seq<char>) -> bool {
    &&& e.status == MemoryStatus::Active
    &&& e.source_session_id matches Some(s) && s@ == session_id
}

/// Every entry of `found` is the stored entry under its identifier and
/// satisfies `wanted`, and no identifier comes twice.
pub open spec fn drawn_from(
    found: Seq<MemoryEntryView>,
    entries: Map<Seq<char>, MemoryEntryView>,
    wanted: spec_fn(MemoryEntryView) -> bool,
) -> bool {
    &&& forall|i: int|
        0 <= i < found.len() ==> {
            &&& entries.contains_key(#[trigger] found[i].memory_id@)
            &&& entries[found[i].memory_id@] == found[i]
            &&& wanted(found[i])
        }
    &&& forall|i: int, j: int|
        0 <= i < j < found.len() ==> #[trigger] found[i].memory_id@ != #[trigger] found[j].memory_id@
}

/// Every stored entry that satisfies `wanted` is in `found`.
pub open spec fn covers(
    found: Seq<MemoryEntryView>,
    entries: Map<Seq<char>, MemoryEntryView>,
    wanted: spec_fn(MemoryEntryView) -> bool,
) -> bool {
    forall|k: Seq<char>|
        #[trigger] entries.contains_key(k) && wanted(entries[k]) ==> exists|i: int|
            0 <= i < found.len() && #[trigger] found[i].memory_id@ == k
}

/// The earlier versions kept for an entry, oldest first (none if none).
pub open spec fn versions_before(history: Map<Seq<char>, Seq<MemoryEntryView>>, memory_id: Seq<char>) -> Seq<MemoryEntryView> {
    if history.contains_key(memory_id) {
        history[memory_id]
    } else {
        Seq::empty()
    }
}

/// The history with `superseded` filed as the newest earlier version of
/// `memory_id`.
pub open spec fn archived(
    history: Map<Seq<char>, Seq<MemoryEntryView>>,
    memory_id: Seq<char>,
    superseded: MemoryEntryView,
) -> Map<Seq<char>, Seq<MemoryEntryView>> {
    history.insert(memory_id, versions_before(history, memory_id).push(superseded))
}

/// The entries of a vector, as values.
pub open spec fn entry_views(v: Seq<MemoryEntry>) -> Seq<MemoryEntryView> {
    v.map_values(|e: MemoryEntry| e@)
}

/// Storage of sessions, their event log and their replay snapshots.
///
/// Each operation says what it did for each outcome; a store may fail for
/// reasons of its own, and then it leaves its contents as they were. A store
/// that is `infallible` fails only with `NotFound`, and only when the record
/// asked for is missing.
pub trait SessionStore {
    /// The store never fails for reasons of its own.
    spec fn infallible(&self) -> bool;

    /// The stored sessions, by session identifier.
    spec fn sessions(&self) -> Map<Seq<char>, SessionView>;

    /// The event log, oldest first.
    spec fn events(&self) -> Seq<SessionEvent>;

    /// The stored replay snapshots, by snapshot identifier.
    spec fn snapshots(&self) -> Map<Seq<char>, ReplaySnapshotView>;

    fn get_session(&self, session_id: &str) -> (r: Result<Session, MemoryError>)
        ensures
            r matches Ok(s) ==> self.sessions().contains_key(session_id@) && s@ == self.sessions()[session_id@]
                && s.session_id@ == session_id@,
            r matches Err(e) ==> absence_reported(e, self.sessions().contains_key(session_id@)),
            self.infallible() ==> (r is Ok <==> self.sessions().contains_key(session_id@)),
            self.infallible() ==> (r matches Err(e) ==> is_not_found_for(e, session_id@)),
    ;

    fn put_session(&mut self, session: Session) -> (r: Result<(), MemoryError>)
        ensures
            r is Ok ==> final(self).sessions() == old(self).sessions().insert(session.session_id@, session@),
            r matches Err(e) ==> final(self).sessions() == old(self).sessions() && !(e is NotFound),
            old(self).infallible() ==> r is Ok,
            final(self).infallible() == old(self).infallible(),
            final(self).events() == old(self).events(),
            final(self).snapshots() == old(self).snapshots(),
    ;

    fn update_session(&mut self, session: Session) -> (r: Result<(), MemoryError>)
        ensures
            r is Ok ==> old(self).sessions().contains_key(session.session_id@)
                && final(self).sessions() == old(self).sessions().insert(session.session_id@, session@),
            r matches Err(e) ==> final(self).sessions() == old(self).sessions()
                && absence_reported(e, old(self).sessions().contains_key(session.session_id@)),
            old(self).infallible() ==> (r is Ok <==> old(self).sessions().contains_key(session.session_id@)),
            old(self).infallible() ==> (r matches Err(e) ==> is_not_found_for(e, session.session_id@)),
            final(self).infallible() == old(self).infallible(),
            final(self).events() == old(self).events(),
            final(self).snapshots() == old(self).snapshots(),
    ;

    fn list_events(&self, session_id: &str, event_types: Option<&[EventType]>, limit: usize) -> (r: Result<Vec<SessionEvent>, MemoryError>)
        ensures
            r matches Ok(v) ==> v@ == latest_events(self.events(), session_id@, event_types_view(event_types), limit as nat),
            self.infallible() ==> r is Ok,
    ;

    fn put_event(&mut self, event: SessionEvent) -> (r: Result<(), MemoryError>)
        ensures
            r is Ok ==> final(self).events() == old(self).events().push(event),
            r matches Err(e) ==> final(self).events() == old(self).events() && !(e is NotFound),
            old(self).infallible() ==> r is Ok,
            final(self).infallible() == old(self).infallible(),
            final(self).sessions() == old(self).sessions(),
            final(self).snapshots() == old(self).snapshots(),
    ;

    fn put_snapshot(&mut self, snapshot: ReplaySnapshot) -> (r: Result<(), MemoryError>)
        ensures
            r is Ok ==> final(self).snapshots() == old(self).snapshots().insert(snapshot.snapshot_id@, snapshot@),
            r matches Err(e) ==> final(self).snapshots() == old(self).snapshots() && !(e is NotFound),
            old(self).infallible() ==> r is Ok,
            final(self).infallible() == old(self).infallible(),
            final(self).sessions() == old(self).sessions(),
            final(self).events() == old(self).events(),
    ;

    fn get_snapshot(&self, snapshot_id: &str) -> (r: Result<ReplaySnapshot, MemoryError>)
        ensures
            r matches Ok(s) ==> self.snapshots().contains_key(snapshot_id@) && s@ == self.snapshots()[snapshot_id@],
            r matches Err(e) ==> absence_reported(e, self.snapshots().contains_key(snapshot_id@)),
            self.infallible() ==> (r is Ok <==> self.snapshots().contains_key(snapshot_id@)),
            self.infallible() ==> (r matches Err(e) ==> is_not_found_for(e, snapshot_id@)),
    ;
}

/// Storage of memory entries, by memory identifier.
///
/// Each operation says what it did for each outcome; a store may fail for
/// reasons of its own, and then it leaves its contents as they were. A store
/// that is `infallible` fails only with `NotFound`, and only when the entry
/// asked for is missing.
pub trait MemoryStore {
    /// The store never fails for reasons of its own.
    spec fn infallible(&self) -> bool;

    /// The stored entries, by memory identifier: the current version of
    /// each.
    spec fn entries(&self) -> Map<Seq<char>, MemoryEntryView>;

    /// The earlier versions of each entry, oldest first: every successful
    /// update files here the version it supersedes, and nothing else
    /// changes what is filed.
    spec fn history(&self) -> Map<Seq<char>, Seq<MemoryEntryView>>;

    /// At most `limit` entries recalled for the subject: each is stored under
    /// its own identifier, none comes twice, and when fewer than `limit` come
    /// back every recallable entry is among them.
    fn retrieve(
        &self,
        subject_type: &str,
        subject_id: &str,
        memory_types: Option<&[MemoryType]>,
        query: Option<&str>,
        limit: usize,
    ) -> (r: Result<Vec<MemoryEntry>, MemoryError>)
        ensures
            r matches Ok(v) ==> {
                let wanted = |e: MemoryEntryView| recallable(e, subject_type@, subject_id@, memory_types_view(memory_types), query_view(query));
                &&& v@.len() <= limit
                &&& drawn_from(entry_views(v@), self.entries(), wanted)
                &&& v@.len() < limit ==> covers(entry_views(v@), self.entries(), wanted)
            },
            r matches Ok(v) ==> forall|i: int| 0 <= i < v@.len() ==> {
                &&& (#[trigger] v@[i]).status == MemoryStatus::Active
                &&& v@[i].subject_type@ == subject_type@
                &&& v@[i].subject_id@ == subject_id@
                &&& (memory_types matches Some(ts) ==> ts@.contains(v@[i].memory_type))
                &&& (query matches Some(q) ==> occurs_in(lowercase_of(q@), lowercase_of(v@[i].content@)))
            },
            self.infallible() ==> r is Ok,
    ;

    fn get_memory(&self, memory_id: &str) -> (r: Result<MemoryEntry, MemoryError>)
        ensures
            r matches Ok(e) ==> self.entries().contains_key(memory_id@) && e@ == self.entries()[memory_id@]
                && e.memory_id@ == memory_id@,
            r matches Err(e) ==> absence_reported(e, self.entries().contains_key(memory_id@)),
            self.infallible() ==> (r is Ok <==> self.entries().contains_key(memory_id@)),
            self.infallible() ==> (r matches Err(e) ==> is_not_found_for(e, memory_id@)),
    ;

    fn put_memory(&mut self, entry: MemoryEntry) -> (r: Result<(), MemoryError>)
        ensures
            r is Ok ==> final(self).entries() == old(self).entries().insert(entry.memory_id@, entry@),
            r matches Err(e) ==> final(self).entries() == old(self).entries() && !(e is NotFound),
            final(self).history() == old(self).history(),
            old(self).infallible() ==> r is Ok,
            final(self).infallible() == old(self).infallible(),
    ;

    /// Replaces the current version of a stored entry, filing the version
    /// it supersedes in the history.
    fn update_memory(&mut self, entry: MemoryEntry) -> (r: Result<(), MemoryError>)
        ensures
            r is Ok ==> old(self).entries().contains_key(entry.memory_id@)
                && final(self).entries() == old(self).entries().insert(entry.memory_id@, entry@)
                && final(self).history() == archived(old(self).history(), entry.memory_id@, old(self).entries()[entry.memory_id@]),
            r matches Err(e) ==> final(self).entries() == old(self).entries()
                && final(self).history() == old(self).history()
                && absence_reported(e, old(self).entries().contains_key(entry.memory_id@)),
            old(self).infallible() ==> (r is Ok <==> old(self).entries().contains_key(entry.memory_id@)),
            old(self).infallible() ==> (r matches Err(e) ==> is_not_found_for(e, entry.memory_id@)),
            final(self).infallible() == old(self).infallible(),
    ;

    /// Logical deletion: the entry stays, marked deleted, with a fresh
    /// update time; nothing else changes.
    fn delete_memory(&mut self, memory_id: &str) -> (r: Result<(), MemoryError>)
        ensures
            r is Ok ==> {
                let before = old(self).entries();
                let after = final(self).entries();
                &&& before.contains_key(memory_id@)
                &&& after == before.insert(memory_id@, MemoryEntryView {
                    status: MemoryStatus::Deleted,
                    updated_at: after[memory_id@].updated_at,
                    ..before[memory_id@]
                })
            },
            r matches Err(e) ==> final(self).entries() == old(self).entries()
                && absence_reported(e, old(self).entries().contains_key(memory_id@)),
            final(self).history() == old(self).history(),
            old(self).infallible() ==> (r is Ok <==> old(self).entries().contains_key(memory_id@)),
            old(self).infallible() ==> (r matches Err(e) ==> is_not_found_for(e, memory_id@)),
            final(self).infallible() == old(self).infallible(),
    ;

    /// The active entries written from the session: each stored under its
    /// own identifier, none twice, all of them.
    fn list_by_session(&self, session_id: &str) -> (r: Result<Vec<MemoryEntry>, MemoryError>)
        ensures
            r matches Ok(v) ==> {
                let wanted = |e: MemoryEntryView| referenced_by(e, session_id@);
                &&& drawn_from(entry_views(v@), self.entries(), wanted)
                &&& covers(entry_views(v@), self.entries(), wanted)
            },
            r matches Ok(v) ==> forall|i: int| 0 <= i < v@.len() ==> {
                &&& (#[trigger] v@[i]).status == MemoryStatus::Active
                &&& v@[i].source_session_id matches Some(s) && s@ == session_id@
            },
            self.infallible() ==> r is Ok,
    ;

    /// The earlier versions kept for an entry, oldest first.
    fn list_versions(&self, memory_id: &str) -> (r: Result<Vec<MemoryEntry>, MemoryError>)
        ensures
            r matches Ok(v) ==> entry_views(v@) == versions_before(self.history(), memory_id@),
            self.infallible() ==> r is Ok,
    ;
}

} // verus!
