use mcp_session_memory::memory_store::{InMemoryMemoryStore, InMemorySessionStore};
use mcp_session_memory::store::{MemoryStore, SessionStore};
use mcp_session_memory::{
    DataClass, EventType, MemoryEntry, MemoryError, MemoryStatus, MemoryType, ReplaySnapshot,
    Session, SessionEvent, SessionStatus, Timestamp,
};

fn at(secs: i64) -> Timestamp {
    Timestamp { secs, nanos: 0 }
}

fn session(id: &str, status: SessionStatus, version: u32) -> Session {
    Session {
        session_id: id.to_string(),
        agent_id: "support_agent".to_string(),
        agent_version: Some("v1.2.0".to_string()),
        workflow_id: Some("refund_flow".to_string()),
        status,
        current_node: Some("manager_approval_gate".to_string()),
        state_version: version,
        workflow_state: serde_json::from_str(r#"{"eligibility":"approved"}"#).unwrap(),
        memory_refs: vec!["mem_demo_001".to_string()],
        artifact_refs: vec![],
        data_classes: vec![DataClass::Financial],
        created_at: at(100),
        updated_at: at(100),
    }
}

fn event(id: &str, session_id: &str, kind: EventType) -> SessionEvent {
    SessionEvent {
        event_id: id.to_string(),
        session_id: session_id.to_string(),
        sequence: 0,
        event_type: kind,
        actor: "agent".to_string(),
        summary: format!("event {}", id),
        data_class: None,
        created_at: at(200),
    }
}

fn entry(id: &str, subject: &str, kind: MemoryType, content: &str, source: Option<&str>) -> MemoryEntry {
    MemoryEntry {
        memory_id: id.to_string(),
        memory_type: kind,
        subject_type: "customer".to_string(),
        subject_id: subject.to_string(),
        content: content.to_string(),
        data_class: DataClass::Pii,
        source_session_id: source.map(|s| s.to_string()),
        source_artifact_ids: vec![],
        confidence: Some(0.91f64.to_bits()),
        version: 1,
        status: MemoryStatus::Active,
        created_at: at(100),
        updated_at: at(100),
    }
}

fn ids(v: &[MemoryEntry]) -> Vec<String> {
    let mut ids: Vec<String> = v.iter().map(|e| e.memory_id.clone()).collect();
    ids.sort();
    ids
}

#[test]
fn session_read_after_write() {
    let mut store = InMemorySessionStore::new();
    store.put_session(session("ses_1", SessionStatus::Paused, 3)).unwrap();
    let s = store.get_session("ses_1").unwrap();
    assert_eq!(s.session_id, "ses_1");
    assert_eq!(s.state_version, 3);
    assert_eq!(s.status, SessionStatus::Paused);
    assert_eq!(s.memory_refs, vec!["mem_demo_001".to_string()]);
    assert_eq!(s.workflow_state["eligibility"], "approved");
}

#[test]
fn missing_session_is_not_found() {
    let store = InMemorySessionStore::new();
    match store.get_session("ses_missing") {
        Err(MemoryError::NotFound(id)) => assert_eq!(id, "ses_missing"),
        other => panic!("unexpected {:?}", other),
    }
}

#[test]
fn put_session_overwrites() {
    let mut store = InMemorySessionStore::new();
    store.put_session(session("ses_1", SessionStatus::Paused, 3)).unwrap();
    store.put_session(session("ses_1", SessionStatus::Active, 7)).unwrap();
    let s = store.get_session("ses_1").unwrap();
    assert_eq!(s.state_version, 7);
    assert_eq!(s.status, SessionStatus::Active);
}

#[test]
fn update_missing_session_is_not_found() {
    let mut store = InMemorySessionStore::new();
    match store.update_session(session("ses_2", SessionStatus::Active, 1)) {
        Err(MemoryError::NotFound(id)) => assert_eq!(id, "ses_2"),
        other => panic!("unexpected {:?}", other),
    }
    assert!(store.get_session("ses_2").is_err());
}

#[test]
fn update_existing_session_replaces_it() {
    let mut store = InMemorySessionStore::new();
    store.put_session(session("ses_1", SessionStatus::Paused, 3)).unwrap();
    store.update_session(session("ses_1", SessionStatus::Completed, 4)).unwrap();
    let s = store.get_session("ses_1").unwrap();
    assert_eq!(s.status, SessionStatus::Completed);
    assert_eq!(s.state_version, 4);
}

#[test]
fn events_are_listed_newest_first_within_limit() {
    let mut store = InMemorySessionStore::new();
    store.put_event(event("e1", "ses_1", EventType::SessionStarted)).unwrap();
    store.put_event(event("e2", "ses_2", EventType::TurnAdded)).unwrap();
    store.put_event(event("e3", "ses_1", EventType::TurnAdded)).unwrap();
    store.put_event(event("e4", "ses_1", EventType::ToolCalled)).unwrap();
    let all = store.list_events("ses_1", None, 10).unwrap();
    let names: Vec<&str> = all.iter().map(|e| e.event_id.as_str()).collect();
    assert_eq!(names, vec!["e4", "e3", "e1"]);
    let two = store.list_events("ses_1", None, 2).unwrap();
    let names: Vec<&str> = two.iter().map(|e| e.event_id.as_str()).collect();
    assert_eq!(names, vec!["e4", "e3"]);
    let none = store.list_events("ses_1", None, 0).unwrap();
    assert!(none.is_empty());
}

#[test]
fn events_are_filtered_by_type() {
    let mut store = InMemorySessionStore::new();
    store.put_event(event("e1", "ses_1", EventType::SessionStarted)).unwrap();
    store.put_event(event("e2", "ses_1", EventType::TurnAdded)).unwrap();
    store.put_event(event("e3", "ses_1", EventType::ToolCalled)).unwrap();
    let types = [EventType::SessionStarted, EventType::ToolCalled];
    let got = store.list_events("ses_1", Some(&types), 10).unwrap();
    let names: Vec<&str> = got.iter().map(|e| e.event_id.as_str()).collect();
    assert_eq!(names, vec!["e3", "e1"]);
    let empty: [EventType; 0] = [];
    assert!(store.list_events("ses_1", Some(&empty), 10).unwrap().is_empty());
}

#[test]
fn newest_event_is_listed_first() {
    let mut store = InMemorySessionStore::new();
    store.put_event(event("e1", "ses_1", EventType::TurnAdded)).unwrap();
    store.put_event(event("e2", "ses_1", EventType::SessionPaused)).unwrap();
    let got = store.list_events("ses_1", None, 1).unwrap();
    assert_eq!(got.len(), 1);
    assert_eq!(got[0].event_id, "e2");
}

#[test]
fn snapshots_read_after_write() {
    let mut store = InMemorySessionStore::new();
    let snap = ReplaySnapshot {
        snapshot_id: "snap_1".to_string(),
        session_id: "ses_1".to_string(),
        state_version: 3,
        workflow_state: serde_json::Value::Null,
        memory_refs: vec!["mem_1".to_string()],
        artifact_refs: vec![],
        agent_id: "support_agent".to_string(),
        agent_version: None,
        created_at: at(5),
    };
    store.put_snapshot(snap).unwrap();
    let got = store.get_snapshot("snap_1").unwrap();
    assert_eq!(got.state_version, 3);
    assert_eq!(got.memory_refs, vec!["mem_1".to_string()]);
    match store.get_snapshot("snap_2") {
        Err(MemoryError::NotFound(id)) => assert_eq!(id, "snap_2"),
        other => panic!("unexpected {:?}", other),
    }
}

#[test]
fn memory_read_after_write() {
    let mut store = InMemoryMemoryStore::new();
    store.put_memory(entry("mem_1", "cust_1187", MemoryType::ProfileMemory, "Prefers email", None)).unwrap();
    let e = store.get_memory("mem_1").unwrap();
    assert_eq!(e.content, "Prefers email");
    assert_eq!(e.confidence, Some(0.91f64.to_bits()));
    match store.get_memory("mem_2") {
        Err(MemoryError::NotFound(id)) => assert_eq!(id, "mem_2"),
        other => panic!("unexpected {:?}", other),
    }
}

#[test]
fn retrieve_filters_by_subject_status_type_and_query() {
    let mut store = InMemoryMemoryStore::new();
    store.put_memory(entry("mem_1", "cust_1187", MemoryType::ProfileMemory, "Customer prefers EMAIL follow-up", None)).unwrap();
    store.put_memory(entry("mem_2", "cust_1187", MemoryType::TurnMemory, "Asked about refund", None)).unwrap();
    store.put_memory(entry("mem_3", "cust_9999", MemoryType::ProfileMemory, "Prefers email", None)).unwrap();
    let mut stale = entry("mem_4", "cust_1187", MemoryType::ProfileMemory, "email address changed", None);
    stale.status = MemoryStatus::Stale;
    store.put_memory(stale).unwrap();

    let all = store.retrieve("customer", "cust_1187", None, None, 10).unwrap();
    assert_eq!(ids(&all), vec!["mem_1", "mem_2"]);

    let profile = [MemoryType::ProfileMemory];
    let got = store.retrieve("customer", "cust_1187", Some(&profile), None, 10).unwrap();
    assert_eq!(ids(&got), vec!["mem_1"]);

    let got = store.retrieve("customer", "cust_1187", None, Some("Email"), 10).unwrap();
    assert_eq!(ids(&got), vec!["mem_1"]);

    let got = store.retrieve("customer", "cust_1187", None, Some("wire transfer"), 10).unwrap();
    assert!(got.is_empty());

    let got = store.retrieve("customer", "cust_1187", None, Some(""), 10).unwrap();
    assert_eq!(ids(&got), vec!["mem_1", "mem_2"]);

    let got = store.retrieve("vendor", "cust_1187", None, None, 10).unwrap();
    assert!(got.is_empty());
}

#[test]
fn retrieve_respects_limit() {
    let mut store = InMemoryMemoryStore::new();
    for i in 0..5 {
        store.put_memory(entry(&format!("mem_{}", i), "cust_1", MemoryType::TurnMemory, "note", None)).unwrap();
    }
    let got = store.retrieve("customer", "cust_1", None, None, 3).unwrap();
    assert_eq!(got.len(), 3);
    let mut unique = ids(&got);
    unique.dedup();
    assert_eq!(unique.len(), 3);
    assert!(store.retrieve("customer", "cust_1", None, None, 0).unwrap().is_empty());
}

#[test]
fn update_missing_memory_is_not_found() {
    let mut store = InMemoryMemoryStore::new();
    match store.update_memory(entry("mem_9", "c", MemoryType::TurnMemory, "x", None)) {
        Err(MemoryError::NotFound(id)) => assert_eq!(id, "mem_9"),
        other => panic!("unexpected {:?}", other),
    }
    assert!(store.get_memory("mem_9").is_err());
}

#[test]
fn update_existing_memory_replaces_it() {
    let mut store = InMemoryMemoryStore::new();
    store.put_memory(entry("mem_1", "c", MemoryType::TurnMemory, "old", None)).unwrap();
    let mut e = entry("mem_1", "c", MemoryType::TurnMemory, "new", None);
    e.version = 2;
    store.update_memory(e).unwrap();
    let got = store.get_memory("mem_1").unwrap();
    assert_eq!(got.content, "new");
    assert_eq!(got.version, 2);
}

#[test]
fn delete_is_logical_and_hides_entry() {
    let mut store = InMemoryMemoryStore::new();
    store.put_memory(entry("mem_1", "cust_1", MemoryType::ProfileMemory, "secret", Some("ses_1"))).unwrap();
    store.delete_memory("mem_1").unwrap();
    let e = store.get_memory("mem_1").unwrap();
    assert_eq!(e.status, MemoryStatus::Deleted);
    assert_eq!(e.content, "secret");
    assert_eq!(e.version, 1);
    assert!(e.updated_at.secs > 100);
    assert!(store.retrieve("customer", "cust_1", None, None, 10).unwrap().is_empty());
    assert!(store.list_by_session("ses_1").unwrap().is_empty());
}

#[test]
fn delete_missing_memory_is_not_found() {
    let mut store = InMemoryMemoryStore::new();
    match store.delete_memory("mem_x") {
        Err(MemoryError::NotFound(id)) => assert_eq!(id, "mem_x"),
        other => panic!("unexpected {:?}", other),
    }
}

#[test]
fn list_by_session_returns_active_entries_from_session() {
    let mut store = InMemoryMemoryStore::new();
    store.put_memory(entry("mem_1", "c", MemoryType::TurnMemory, "a", Some("ses_1"))).unwrap();
    store.put_memory(entry("mem_2", "c", MemoryType::TurnMemory, "b", Some("ses_2"))).unwrap();
    store.put_memory(entry("mem_3", "c", MemoryType::TurnMemory, "c", None)).unwrap();
    let mut redacted = entry("mem_4", "c", MemoryType::TurnMemory, "d", Some("ses_1"));
    redacted.status = MemoryStatus::Redacted;
    store.put_memory(redacted).unwrap();
    store.put_memory(entry("mem_5", "c", MemoryType::ArtifactMemory, "e", Some("ses_1"))).unwrap();
    let got = store.list_by_session("ses_1").unwrap();
    assert_eq!(ids(&got), vec!["mem_1", "mem_5"]);
}

#[test]
fn error_messages_name_kind_and_detail() {
    assert_eq!(MemoryError::NotFound("x".to_string()).message(), "not found: x");
    assert_eq!(MemoryError::AccessDenied("x".to_string()).message(), "access denied: x");
    assert_eq!(MemoryError::NotResumable("x".to_string()).message(), "session not resumable: x");
    assert_eq!(MemoryError::DeletionBlocked("x".to_string()).message(), "deletion blocked: x");
    assert_eq!(MemoryError::Internal("x".to_string()).message(), "internal error: x");
}

#[test]
fn update_files_the_superseded_version() {
    let mut store = InMemoryMemoryStore::new();
    store.put_memory(entry("mem_1", "c", MemoryType::TurnMemory, "old", None)).unwrap();
    assert!(store.list_versions("mem_1").unwrap().is_empty());
    let mut e = entry("mem_1", "c", MemoryType::TurnMemory, "new", None);
    e.version = 2;
    store.update_memory(e).unwrap();
    let versions = store.list_versions("mem_1").unwrap();
    assert_eq!(versions.len(), 1);
    assert_eq!(versions[0].content, "old");
    store.delete_memory("mem_1").unwrap();
    assert_eq!(store.list_versions("mem_1").unwrap().len(), 1);
}
