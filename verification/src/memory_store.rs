use vstd::prelude::*;
use vstd::hash_map::StringHashMap;
use crate::error::MemoryError;
use crate::external::{to_lowercase, utc_now, lowercase_of};
use crate::store::{
    archived, covers, versions_before, drawn_from, entry_views, event_selected, event_types_view,
    latest_events, memory_types_view, query_view, recallable, referenced_by,
    MemoryStore, SessionStore,
};
use crate::text::{chars_contain, chars_of};
use crate::types::{
    EventType, MemoryEntry, MemoryEntryView, MemoryStatus, MemoryType, ReplaySnapshot,
    ReplaySnapshotView, Session, SessionEvent, SessionView,
};

verus! {

/// Whether `t` is one of `types`.
pub fn event_type_listed(t: EventType, types: &[EventType]) -> (b: bool)
    ensures
        b == types@.contains(t),
{
    let mut i: usize = 0;
    while i < types.len()
        invariant
            i <= types@.len(),
            forall|j: int| 0 <= j < i ==> types@[j] != t,
        decreases types@.len() - i,
    {
        if types[i] == t {
            return true;
        }
        i = i + 1;
    }
    false
}

/// Whether `t` is one of `types`.
pub fn memory_type_listed(t: MemoryType, types: &[MemoryType]) -> (b: bool)
    ensures
        b == types@.contains(t),
{
    let mut i: usize = 0;
    while i < types.len()
        invariant
            i <= types@.len(),
            forall|j: int| 0 <= j < i ==> types@[j] != t,
        decreases types@.len() - i,
    {
        if types[i] == t {
            return true;
        }
        i = i + 1;
    }
    false
}

/// Sessions, their event log and replay snapshots, kept in memory.
pub struct InMemorySessionStore {
    sessions: StringHashMap<Session>,
    events: Vec<SessionEvent>,
    snapshots: StringHashMap<ReplaySnapshot>,
}

impl InMemorySessionStore {
    /// Each session is stored under its own identifier.
    #[verifier::type_invariant]
    closed spec fn well_formed(self) -> bool {
        forall|k: Seq<char>| #[trigger] self.sessions@.contains_key(k) ==> self.sessions@[k].session_id@ == k
    }

    /// An empty store.
    pub fn new() -> (r: Self)
        ensures
            r.sessions() == Map::<Seq<char>, SessionView>::empty(),
            r.events() == Seq::<SessionEvent>::empty(),
            r.snapshots() == Map::<Seq<char>, ReplaySnapshotView>::empty(),
    {
        let r = InMemorySessionStore {
            sessions: StringHashMap::new(),
            events: Vec::new(),
            snapshots: StringHashMap::new(),
        };
        assert(r.sessions() =~= Map::<Seq<char>, SessionView>::empty());
        assert(r.snapshots() =~= Map::<Seq<char>, ReplaySnapshotView>::empty());
        r
    }
}

impl SessionStore for InMemorySessionStore {
    open spec fn infallible(&self) -> bool {
        true
    }

    closed spec fn sessions(&self) -> Map<Seq<char>, SessionView> {
        self.sessions@.map_values(|s: Session| s@)
    }

    closed spec fn events(&self) -> Seq<SessionEvent> {
        self.events@
    }

    closed spec fn snapshots(&self) -> Map<Seq<char>, ReplaySnapshotView> {
        self.snapshots@.map_values(|s: ReplaySnapshot| s@)
    }

    fn get_session(&self, session_id: &str) -> (r: Result<Session, MemoryError>)
    {
        proof {
            use_type_invariant(self);
        }
        match self.sessions.get(session_id) {
            Some(s) => Ok(s.clone()),
            None => Err(MemoryError::NotFound(String::from_str(session_id))),
        }
    }

    fn put_session(&mut self, session: Session) -> (r: Result<(), MemoryError>)
    {
        let mut taken = InMemorySessionStore::new();
        std::mem::swap(self, &mut taken);
        proof {
            use_type_invariant(&taken);
        }
        let InMemorySessionStore { mut sessions, events, snapshots } = taken;
        let key = session.session_id.clone();
        sessions.insert(key, session);
        *self = InMemorySessionStore { sessions, events, snapshots };
        assert(self.sessions() =~= old(self).sessions().insert(session.session_id@, session@));
        Ok(())
    }

    fn update_session(&mut self, session: Session) -> (r: Result<(), MemoryError>)
    {
        if !self.sessions.contains_key(session.session_id.as_str()) {
            return Err(MemoryError::NotFound(session.session_id));
        }
        let mut taken = InMemorySessionStore::new();
        std::mem::swap(self, &mut taken);
        proof {
            use_type_invariant(&taken);
        }
        let InMemorySessionStore { mut sessions, events, snapshots } = taken;
        let key = session.session_id.clone();
        sessions.insert(key, session);
        *self = InMemorySessionStore { sessions, events, snapshots };
        assert(self.sessions() =~= old(self).sessions().insert(session.session_id@, session@));
        Ok(())
    }

    fn list_events(&self, session_id: &str, event_types: Option<&[EventType]>, limit: usize) -> (r: Result<Vec<SessionEvent>, MemoryError>)
    {
        let sid = String::from_str(session_id);
        let ghost types = event_types_view(event_types);
        let ghost log = self.events@;
        let mut out: Vec<SessionEvent> = Vec::new();
        let mut i: usize = self.events.len();
        assert(log.take(i as int) =~= log);
        assert(out@ + latest_events(log, session_id@, types, limit as nat) =~= latest_events(log, session_id@, types, limit as nat));
        while i > 0 && out.len() < limit
            invariant
                i <= log.len(),
                log == self.events@,
                sid@ == session_id@,
                types == event_types_view(event_types),
                out@.len() <= limit,
                out@ + latest_events(log.take(i as int), session_id@, types, (limit - out@.len()) as nat)
                    == latest_events(log, session_id@, types, limit as nat),
            decreases i,
        {
            let e = &self.events[i - 1];
            let selected = e.session_id == sid && match event_types {
                Some(ts) => event_type_listed(e.event_type, ts),
                None => true,
            };
            let ghost prefix = log.take(i as int);
            assert(prefix.last() == *e);
            assert(prefix.drop_last() =~= log.take(i - 1));
            assert(selected == event_selected(*e, session_id@, types));
            let ghost before = out@;
            if selected {
                out.push(e.clone());
                assert(out@ =~= before + seq![*e]);
                assert(before + seq![*e] + latest_events(log.take(i - 1), session_id@, types, (limit - out@.len()) as nat)
                    =~= before + (seq![*e] + latest_events(log.take(i - 1), session_id@, types, (limit - out@.len()) as nat)));
            }
            i = i - 1;
        }
        assert(latest_events(log.take(i as int), session_id@, types, (limit - out@.len()) as nat) =~= Seq::<SessionEvent>::empty());
        assert(out@ + Seq::<SessionEvent>::empty() =~= out@);
        Ok(out)
    }

    fn put_event(&mut self, event: SessionEvent) -> (r: Result<(), MemoryError>)
    {
        let mut taken = InMemorySessionStore::new();
        std::mem::swap(self, &mut taken);
        proof {
            use_type_invariant(&taken);
        }
        let InMemorySessionStore { sessions, mut events, snapshots } = taken;
        events.push(event);
        *self = InMemorySessionStore { sessions, events, snapshots };
        Ok(())
    }

    fn put_snapshot(&mut self, snapshot: ReplaySnapshot) -> (r: Result<(), MemoryError>)
    {
        let mut taken = InMemorySessionStore::new();
        std::mem::swap(self, &mut taken);
        proof {
            use_type_invariant(&taken);
        }
        let InMemorySessionStore { sessions, events, mut snapshots } = taken;
        let key = snapshot.snapshot_id.clone();
        snapshots.insert(key, snapshot);
        *self = InMemorySessionStore { sessions, events, snapshots };
        assert(self.snapshots() =~= old(self).snapshots().insert(snapshot.snapshot_id@, snapshot@));
        Ok(())
    }

    fn get_snapshot(&self, snapshot_id: &str) -> (r: Result<ReplaySnapshot, MemoryError>)
    {
        match self.snapshots.get(snapshot_id) {
            Some(s) => Ok(s.clone()),
            None => Err(MemoryError::NotFound(String::from_str(snapshot_id))),
        }
    }
}

/// Whether `e` is recalled for the subject; `query_lower` is the lower-cased
/// query, already split into characters.
fn entry_recallable(
    e: &MemoryEntry,
    subject_type: &String,
    subject_id: &String,
    memory_types: Option<&[MemoryType]>,
    query: Option<&str>,
    query_lower: &Option<Vec<char>>,
) -> (b: bool)
    requires
        query is None <==> query_lower is None,
        query matches Some(q) ==> query_lower matches Some(l) && l@ == lowercase_of(q@),
    ensures
        b == recallable(e@, subject_type@, subject_id@, memory_types_view(memory_types), query_view(query)),
{
    if e.status != MemoryStatus::Active {
        return false;
    }
    if !(e.subject_type == *subject_type && e.subject_id == *subject_id) {
        return false;
    }
    let type_ok = match memory_types {
        Some(ts) => memory_type_listed(e.memory_type, ts),
        None => true,
    };
    if !type_ok {
        return false;
    }
    match query_lower {
        Some(q) => {
            let content = to_lowercase(e.content.as_str());
            let content_chars = chars_of(content.as_str());
            chars_contain(&content_chars, q)
        },
        None => true,
    }
}

/// Whether `e` is an active entry written from the session.
fn entry_referenced_by(e: &MemoryEntry, session_id: &String) -> (b: bool)
    ensures
        b == referenced_by(e@, session_id@),
{
    if e.status != MemoryStatus::Active {
        return false;
    }
    match &e.source_session_id {
        Some(s) => *s == *session_id,
        None => false,
    }
}

/// Whether `n` is under the limit, if there is one.
fn below_limit(n: usize, limit: Option<usize>) -> (b: bool)
    ensures
        b == (limit matches Some(l) ==> n < l),
{
    match limit {
        Some(l) => n < l,
        None => true,
    }
}

/// Which stored entries a scan keeps: those recalled for a subject, or
/// those referenced by a session.
enum Selection<'a> {
    Recall {
        subject_type: String,
        subject_id: String,
        memory_types: Option<&'a [MemoryType]>,
        query: Option<&'a str>,
        query_lower: Option<Vec<char>>,
    },
    FromSession { session_id: String },
}

impl<'a> Selection<'a> {
    /// The lower-cased query, if any, is that of the query.
    spec fn ready(&self) -> bool {
        match self {
            Selection::Recall { query, query_lower, .. } => {
                &&& query is None <==> query_lower is None
                &&& query matches Some(q) ==> query_lower matches Some(l) && l@ == lowercase_of(q@)
            },
            Selection::FromSession { .. } => true,
        }
    }

    /// Whether the scan keeps an entry.
    spec fn wants(&self, e: MemoryEntryView) -> bool {
        match self {
            Selection::Recall { subject_type, subject_id, memory_types, query, .. } =>
                recallable(e, subject_type@, subject_id@, memory_types_view(*memory_types), query_view(*query)),
            Selection::FromSession { session_id } => referenced_by(e, session_id@),
        }
    }

    fn keeps(&self, e: &MemoryEntry) -> (b: bool)
        requires
            self.ready(),
        ensures
            b == self.wants(e@),
    {
        match self {
            Selection::Recall { subject_type, subject_id, memory_types, query, query_lower } =>
                entry_recallable(e, subject_type, subject_id, *memory_types, *query, query_lower),
            Selection::FromSession { session_id } => entry_referenced_by(e, session_id),
        }
    }
}

/// Each entry is stored under its own identifier, and `ids` lists each
/// stored identifier exactly once.
spec fn indexed(entries: Map<Seq<char>, MemoryEntry>, ids: Seq<String>) -> bool {
    &&& forall|k: Seq<char>| #[trigger] entries.contains_key(k) ==> entries[k].memory_id@ == k
    &&& forall|i: int| 0 <= i < ids.len() ==> entries.contains_key(#[trigger] ids[i]@)
    &&& forall|k: Seq<char>| #[trigger] entries.contains_key(k) ==> exists|i: int|
        0 <= i < ids.len() && #[trigger] ids[i]@ == k
    &&& forall|i: int, j: int| 0 <= i < j < ids.len() ==> #[trigger] ids[i]@ != #[trigger] ids[j]@
}

/// Copies of the entries of `v`, in order.
fn copy_entries(v: &Vec<MemoryEntry>) -> (r: Vec<MemoryEntry>)
    ensures
        entry_views(r@) == entry_views(v@),
{
    let mut r: Vec<MemoryEntry> = Vec::new();
    let mut i: usize = 0;
    while i < v.len()
        invariant
            i <= v@.len(),
            r@.len() == i,
            entry_views(r@) == entry_views(v@.take(i as int)),
        decreases v@.len() - i,
    {
        let ghost before = r@;
        r.push(v[i].clone());
        proof {
            assert(entry_views(r@) =~= entry_views(before).push(v@[i as int]@));
            assert(entry_views(v@.take(i + 1)) =~= entry_views(v@.take(i as int)).push(v@[i as int]@));
        }
        i = i + 1;
    }
    assert(v@.take(v@.len() as int) =~= v@);
    r
}

/// Memory entries kept in memory, by memory identifier, with the
/// identifiers also listed in the order they were first stored, and the
/// earlier versions of each entry.
pub struct InMemoryMemoryStore {
    entries: StringHashMap<MemoryEntry>,
    ids: Vec<String>,
    history: StringHashMap<Vec<MemoryEntry>>,
}

impl InMemoryMemoryStore {
    /// Each entry is stored under its own identifier, and `ids` lists each
    /// stored identifier exactly once.
    #[verifier::type_invariant]
    closed spec fn well_formed(self) -> bool {
        indexed(self.entries@, self.ids@)
    }

    /// An empty store.
    pub fn new() -> (r: Self)
        ensures
            r.entries() == Map::<Seq<char>, MemoryEntryView>::empty(),
            r.history() == Map::<Seq<char>, Seq<MemoryEntryView>>::empty(),
    {
        let r = InMemoryMemoryStore { entries: StringHashMap::new(), ids: Vec::new(), history: StringHashMap::new() };
        assert(r.entries() =~= Map::<Seq<char>, MemoryEntryView>::empty());
        assert(r.history() =~= Map::<Seq<char>, Seq<MemoryEntryView>>::empty());
        r
    }
}

impl MemoryStore for InMemoryMemoryStore {
    open spec fn infallible(&self) -> bool {
        true
    }

    closed spec fn entries(&self) -> Map<Seq<char>, MemoryEntryView> {
        self.entries@.map_values(|e: MemoryEntry| e@)
    }

    closed spec fn history(&self) -> Map<Seq<char>, Seq<MemoryEntryView>> {
        self.history@.map_values(|v: Vec<MemoryEntry>| entry_views(v@))
    }

    fn retrieve(
        &self,
        subject_type: &str,
        subject_id: &str,
        memory_types: Option<&[MemoryType]>,
        query: Option<&str>,
        limit: usize,
    ) -> (r: Result<Vec<MemoryEntry>, MemoryError>)
    {
        let sel = Selection::Recall {
            subject_type: String::from_str(subject_type),
            subject_id: String::from_str(subject_id),
            memory_types,
            query,
            query_lower: match query {
                Some(q) => {
                    let l = to_lowercase(q);
                    Some(chars_of(l.as_str()))
                },
                None => None,
            },
        };
        let out = self.select(&sel, Some(limit));
        assert((|e: MemoryEntryView| sel.wants(e)) =~= (|e: MemoryEntryView| recallable(
            e, subject_type@, subject_id@, memory_types_view(memory_types), query_view(query))));
        assert forall|i: int| 0 <= i < out@.len() implies recallable(
            (#[trigger] out@[i])@, subject_type@, subject_id@, memory_types_view(memory_types), query_view(query)) by {
            let f = entry_views(out@);
            assert(f[i] == out@[i]@);
            assert(self.entries().contains_key(f[i].memory_id@));
            assert(sel.wants(f[i]));
        }
        Ok(out)
}

    fn get_memory(&self, memory_id: &str) -> (r: Result<MemoryEntry, MemoryError>)
    {
        proof {
            use_type_invariant(self);
        }
        match self.entries.get(memory_id) {
            Some(e) => Ok(e.clone()),
            None => Err(MemoryError::NotFound(String::from_str(memory_id))),
        }
    }

    fn list_versions(&self, memory_id: &str) -> (r: Result<Vec<MemoryEntry>, MemoryError>) {
        match self.history.get(memory_id) {
            Some(v) => Ok(copy_entries(v)),
            None => {
                assert(entry_views(Seq::<MemoryEntry>::empty()) =~= Seq::<MemoryEntryView>::empty());
                Ok(Vec::new())
            },
        }
    }

    fn put_memory(&mut self, entry: MemoryEntry) -> (r: Result<(), MemoryError>)
    {
        let mut taken = InMemoryMemoryStore::new();
        std::mem::swap(self, &mut taken);
        proof {
            use_type_invariant(&taken);
        }
        let InMemoryMemoryStore { mut entries, mut ids, history } = taken;
        let ghost ids0 = ids@;
        if !entries.contains_key(entry.memory_id.as_str()) {
            ids.push(entry.memory_id.clone());
        }
        let key = entry.memory_id.clone();
        entries.insert(key, entry);
        proof {
            assert forall|k: Seq<char>| #[trigger] entries@.contains_key(k) implies entries@[k].memory_id@ == k by {
                if k != entry.memory_id@ {
                    assert(old(self).entries@.contains_key(k));
                }
            }
            assert forall|k: Seq<char>| #[trigger] entries@.contains_key(k) implies exists|i: int|
                0 <= i < ids@.len() && #[trigger] ids@[i]@ == k by {
                if k == entry.memory_id@ {
                    if !old(self).entries@.contains_key(k) {
                        assert(ids@[ids@.len() - 1]@ == k);
                    } else {
                        let i = choose|i: int| 0 <= i < ids0.len() && #[trigger] ids0[i]@ == k;
                        assert(ids@[i] == ids0[i]);
                    }
                } else {
                    let i = choose|i: int| 0 <= i < ids0.len() && #[trigger] ids0[i]@ == k;
                    assert(ids@[i] == ids0[i]);
                }
            }
            assert forall|i: int| 0 <= i < ids@.len() implies entries@.contains_key(#[trigger] ids@[i]@) by {
                if i < ids0.len() {
                    assert(ids@[i] == ids0[i]);
                }
            }
            assert forall|i: int, j: int| 0 <= i < j < ids@.len() implies #[trigger] ids@[i]@ != #[trigger] ids@[j]@ by {
                if j >= ids0.len() {
                    assert(ids@[i] == ids0[i]);
                    assert(!old(self).entries@.contains_key(ids@[j]@));
                } else {
                    assert(ids@[i] == ids0[i]);
                    assert(ids@[j] == ids0[j]);
                }
            }
        }
        assert(indexed(entries@, ids@));
        *self = InMemoryMemoryStore { entries, ids, history };
        assert(self.entries() =~= old(self).entries().insert(entry.memory_id@, entry@));
        Ok(())
    }

    fn update_memory(&mut self, entry: MemoryEntry) -> (r: Result<(), MemoryError>)
    {
        if !self.entries.contains_key(entry.memory_id.as_str()) {
            return Err(MemoryError::NotFound(entry.memory_id));
        }
        self.replace_entry(entry, true);
        Ok(())
    }

    fn delete_memory(&mut self, memory_id: &str) -> (r: Result<(), MemoryError>)
    {
        proof {
            use_type_invariant(&*self);
        }
        match self.entries.get(memory_id) {
            Some(e) => {
                let mut entry = e.clone();
                entry.status = MemoryStatus::Deleted;
                entry.updated_at = utc_now();
                self.replace_entry(entry, false);
                assert(self.entries() =~= old(self).entries().insert(memory_id@, MemoryEntryView {
                    status: MemoryStatus::Deleted,
                    updated_at: self.entries()[memory_id@].updated_at,
                    ..old(self).entries()[memory_id@]
                }));
                Ok(())
            },
            None => Err(MemoryError::NotFound(String::from_str(memory_id))),
        }
    }

    fn list_by_session(&self, session_id: &str) -> (r: Result<Vec<MemoryEntry>, MemoryError>)
    {
        let sel = Selection::FromSession { session_id: String::from_str(session_id) };
        let out = self.select(&sel, None);
        assert((|e: MemoryEntryView| sel.wants(e)) =~= (|e: MemoryEntryView| referenced_by(e, session_id@)));
        assert forall|i: int| 0 <= i < out@.len() implies referenced_by((#[trigger] out@[i])@, session_id@) by {
            let f = entry_views(out@);
            assert(f[i] == out@[i]@);
            assert(self.entries().contains_key(f[i].memory_id@));
            assert(sel.wants(f[i]));
        }
        Ok(out)
}
}

impl InMemoryMemoryStore {
    /// The stored entries the selection keeps, in the order they were first
    /// stored, stopping at `limit` if one is given: none twice, and all of
    /// them when the limit is not reached.
    fn select(&self, sel: &Selection, limit: Option<usize>) -> (out: Vec<MemoryEntry>)
        requires
            sel.ready(),
        ensures
            limit matches Some(l) ==> out@.len() <= l,
            drawn_from(entry_views(out@), self.entries(), |e: MemoryEntryView| sel.wants(e)),
            (limit matches Some(l) ==> out@.len() < l) ==> covers(entry_views(out@), self.entries(), |e: MemoryEntryView| sel.wants(e)),
    {
        proof {
            use_type_invariant(self);
        }
        let ghost wanted = |e: MemoryEntryView| sel.wants(e);
        let ghost entries = self.entries();
        let mut out: Vec<MemoryEntry> = Vec::new();
        let mut i: usize = 0;
        while i < self.ids.len() && below_limit(out.len(), limit)
            invariant
                i <= self.ids@.len(),
                limit matches Some(l) ==> out@.len() <= l,
                sel.ready(),
                entries == self.entries(),
                wanted == (|e: MemoryEntryView| sel.wants(e)),
                drawn_from(entry_views(out@), entries, wanted),
                forall|t: int| 0 <= t < out@.len() ==> exists|j: int| 0 <= j < i && #[trigger] out@[t].memory_id@ == self.ids@[j]@,
                forall|j: int| 0 <= j < i && #[trigger] wanted(entries[self.ids@[j]@]) ==> exists|t: int|
                    0 <= t < out@.len() && #[trigger] out@[t].memory_id@ == self.ids@[j]@,
            decreases self.ids@.len() - i,
        {
            proof {
                use_type_invariant(self);
            }
            let id = &self.ids[i];
            let e = self.entries.get(id.as_str()).unwrap();
            let ghost old_len = out@.len();
            assert(e@ == entries[self.ids@[i as int]@]);
            let ghost before = out@;
            let keep = sel.keeps(e);
            if keep {
                out.push(e.clone());
                proof {
                    assert(entry_views(out@) =~= entry_views(before).push(e@));
                    assert forall|t: int| 0 <= t < before.len() implies #[trigger] before[t].memory_id@ != e.memory_id@ by {
                        let j = choose|j: int| 0 <= j < i && before[t].memory_id@ == self.ids@[j]@;
                        assert(self.ids@[j]@ != self.ids@[i as int]@);
                    }
                    assert(out@[before.len() as int]@ == e@);
                }
            }
            proof {
                assert(keep == wanted(entries[self.ids@[i as int]@]));
                assert(forall|t: int| 0 <= t < old_len ==> out@[t] == before[t]);
                assert forall|t: int| 0 <= t < out@.len() implies exists|j: int| 0 <= j < i + 1 && #[trigger] out@[t].memory_id@ == self.ids@[j]@ by {
                    if t == out@.len() - 1 && out@.len() > old_len {
                        assert(out@[t].memory_id@ == self.ids@[i as int]@);
                    } else {
                        assert(out@[t] == before[t]);
                        let j = choose|j: int| 0 <= j < i && #[trigger] before[t].memory_id@ == self.ids@[j]@;
                    }
                }
                assert forall|j: int| 0 <= j < i + 1 && #[trigger] wanted(entries[self.ids@[j]@]) implies exists|t: int|
                    0 <= t < out@.len() && #[trigger] out@[t].memory_id@ == self.ids@[j]@ by {
                    if j == i {
                        assert(out@[out@.len() - 1].memory_id@ == self.ids@[j]@);
                    } else {
                        let t = choose|t: int| 0 <= t < old_len && #[trigger] before[t].memory_id@ == self.ids@[j]@;
                        assert(out@[t] == before[t]);
                    }
                }
            }
            i = i + 1;
        }
        proof {
            if limit matches Some(l) ==> out@.len() < l {
                assert forall|k: Seq<char>| #[trigger] entries.contains_key(k) && wanted(entries[k]) implies exists|t: int|
                    0 <= t < entry_views(out@).len() && #[trigger] entry_views(out@)[t].memory_id@ == k by {
                    let j = choose|j: int| 0 <= j < self.ids@.len() && #[trigger] self.ids@[j]@ == k;
                    assert(wanted(entries[self.ids@[j]@]));
                    let t = choose|t: int| 0 <= t < out@.len() && #[trigger] out@[t].memory_id@ == self.ids@[j]@;
                    assert(entry_views(out@)[t].memory_id@ == k);
                }
            }
        }
        out
    }

    /// Overwrites the stored entry under the entry's identifier, which must
    /// already be stored; with `archive`, the version it supersedes is filed
    /// in the history.
    fn replace_entry(&mut self, entry: MemoryEntry, archive: bool)
        requires
            old(self).entries().contains_key(entry.memory_id@),
        ensures
            final(self).entries() == old(self).entries().insert(entry.memory_id@, entry@),
            final(self).history() == if archive {
                archived(old(self).history(), entry.memory_id@, old(self).entries()[entry.memory_id@])
            } else {
                old(self).history()
            },
    {
        let past: Option<Vec<MemoryEntry>> = if archive {
            let current = self.entries.get(entry.memory_id.as_str()).unwrap().clone();
            let mut past = match self.history.get(entry.memory_id.as_str()) {
                Some(v) => copy_entries(v),
                None => Vec::new(),
            };
            let ghost earlier = past@;
            past.push(current);
            proof {
                assert(entry_views(past@) =~= entry_views(earlier).push(old(self).entries()[entry.memory_id@]));
                assert(entry_views(earlier) == versions_before(old(self).history(), entry.memory_id@));
            }
            Some(past)
        } else {
            None
        };
        let mut taken = InMemoryMemoryStore::new();
        std::mem::swap(self, &mut taken);
        proof {
            use_type_invariant(&taken);
        }
        let InMemoryMemoryStore { mut entries, ids, mut history } = taken;
        let key = entry.memory_id.clone();
        let ghost id = entry.memory_id@;
        match past {
            Some(p) => history.insert(entry.memory_id.clone(), p),
            None => {},
        }
        entries.insert(key, entry);
        proof {
            assert(entries@.dom() =~= old(self).entries@.dom());
            assert forall|k: Seq<char>| #[trigger] entries@.contains_key(k) implies entries@[k].memory_id@ == k by {
                if k != id {
                    assert(old(self).entries@.contains_key(k));
                }
            }
            assert forall|k: Seq<char>| #[trigger] entries@.contains_key(k) implies exists|i: int|
                0 <= i < ids@.len() && #[trigger] ids@[i]@ == k by {
                assert(old(self).entries@.contains_key(k));
            }
        }
        *self = InMemoryMemoryStore { entries, ids, history };
        assert(self.entries() =~= old(self).entries().insert(id, entry@));
        if archive {
            assert(self.history() =~= archived(old(self).history(), id, old(self).entries()[id]));
        } else {
            assert(self.history() =~= old(self).history());
        }
    }
}
} // verus!
