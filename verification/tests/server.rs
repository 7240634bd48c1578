use mcp_session_memory::memory_store::{InMemoryMemoryStore, InMemorySessionStore};
use mcp_session_memory::server::{
    error_reply, memory_refs_of, not_paused_reply, or_store_error,
    CreateReplaySnapshotInput, DeleteMemoryInput, GetSessionStateInput, ListMemoryRefsInput,
    ListSessionEventsInput, RedactMemoryInput, ResumeOutcome, ResumeSessionInput,
    RetrieveMemoryInput, SessionMemoryServer, StoreMemoryInput, TerminateSessionInput,
    UpdateMemoryInput,
};
use mcp_session_memory::store::{MemoryStore, SessionStore};
use mcp_session_memory::{
    DataClass, EventType, MemoryEntry, MemoryError, MemoryStatus, MemoryType, Session,
    SessionEvent, SessionStatus, Timestamp,
};

type Server = SessionMemoryServer<InMemorySessionStore, InMemoryMemoryStore>;

fn at(secs: i64) -> Timestamp {
    Timestamp { secs, nanos: 0 }
}

fn demo_session(status: SessionStatus, workflow_state: &str) -> Session {
    Session {
        session_id: "ses_demo_001".to_string(),
        agent_id: "support_agent".to_string(),
        agent_version: Some("v1.2.0".to_string()),
        workflow_id: Some("refund_flow".to_string()),
        status,
        current_node: Some("manager_approval_gate".to_string()),
        state_version: 3,
        workflow_state: serde_json::from_str(workflow_state).unwrap(),
        memory_refs: vec!["mem_demo_001".to_string()],
        artifact_refs: vec![],
        data_classes: vec![DataClass::Financial],
        created_at: at(100),
        updated_at: at(100),
    }
}

fn demo_memory() -> MemoryEntry {
    MemoryEntry {
        memory_id: "mem_demo_001".to_string(),
        memory_type: MemoryType::ProfileMemory,
        subject_type: "customer".to_string(),
        subject_id: "cust_1187".to_string(),
        content: "Customer prefers email follow-up. Previous refund approved in March 2026.".to_string(),
        data_class: DataClass::Pii,
        source_session_id: Some("ses_demo_001".to_string()),
        source_artifact_ids: vec![],
        confidence: Some(0.91f64.to_bits()),
        version: 1,
        status: MemoryStatus::Active,
        created_at: at(100),
        updated_at: at(100),
    }
}

const DEMO_STATE: &str = r#"{"refund_amount":89.99,"eligibility":"approved","approval_required":true}"#;

fn demo_server(status: SessionStatus, workflow_state: &str) -> Server {
    let mut sessions = InMemorySessionStore::new();
    sessions.put_session(demo_session(status, workflow_state)).unwrap();
    let mut memory = InMemoryMemoryStore::new();
    memory.put_memory(demo_memory()).unwrap();
    SessionMemoryServer::new(sessions, memory)
}

fn is_fresh_id(prefix: &str, id: &str) -> bool {
    id.len() == prefix.len() + 32
        && id.starts_with(prefix)
        && id[prefix.len()..].chars().all(|c| c.is_ascii_digit() || ('a'..='f').contains(&c))
}

fn store_input(content: &str, data_class: Option<DataClass>) -> StoreMemoryInput {
    StoreMemoryInput {
        memory_type: MemoryType::ProfileMemory,
        subject_type: "customer".to_string(),
        subject_id: "cust_1187".to_string(),
        content: content.to_string(),
        data_class,
        source_session_id: None,
        confidence: Some(0.95f64.to_bits()),
    }
}

#[test]
fn get_session_state_reads_the_session() {
    let server = demo_server(SessionStatus::Paused, DEMO_STATE);
    let s = server.get_session_state(GetSessionStateInput { session_id: "ses_demo_001".to_string() }).unwrap();
    assert_eq!(s.agent_id, "support_agent");
    assert_eq!(s.status, SessionStatus::Paused);
    assert_eq!(s.current_node.as_deref(), Some("manager_approval_gate"));
    assert_eq!(s.state_version, 3);
    assert_eq!(s.data_classes, vec![DataClass::Financial]);
    assert_eq!(s.workflow_state["refund_amount"], 89.99);
}

#[test]
fn get_session_state_of_missing_session_fails() {
    let server = demo_server(SessionStatus::Paused, DEMO_STATE);
    match server.get_session_state(GetSessionStateInput { session_id: "ses_nope".to_string() }) {
        Err(e) => assert_eq!(e.message(), "not found: ses_nope"),
        Ok(_) => panic!("expected an error"),
    }
}

#[test]
fn list_session_events_defaults_to_twenty() {
    let mut sessions = InMemorySessionStore::new();
    for i in 0..25u64 {
        sessions.put_event(SessionEvent {
            event_id: format!("evt_{}", i),
            session_id: "ses_1".to_string(),
            sequence: i,
            event_type: EventType::TurnAdded,
            actor: "agent".to_string(),
            summary: "turn".to_string(),
            data_class: None,
            created_at: at(i as i64),
        }).unwrap();
    }
    let server = SessionMemoryServer::new(sessions, InMemoryMemoryStore::new());
    let got = server.list_session_events(ListSessionEventsInput {
        session_id: "ses_1".to_string(), event_types: None, limit: None,
    }).unwrap();
    assert_eq!(got.len(), 20);
    assert_eq!(got[0].event_id, "evt_24");
    assert_eq!(got[19].event_id, "evt_5");
    let got = server.list_session_events(ListSessionEventsInput {
        session_id: "ses_1".to_string(), event_types: Some(vec![EventType::ToolCalled]), limit: Some(5),
    }).unwrap();
    assert!(got.is_empty());
}

#[test]
fn retrieve_memory_defaults_to_eight() {
    let mut server = demo_server(SessionStatus::Active, DEMO_STATE);
    for i in 0..10 {
        server.store_memory(store_input(&format!("fact {}", i), None)).unwrap();
    }
    let got = server.retrieve_memory(RetrieveMemoryInput {
        subject_type: "customer".to_string(), subject_id: "cust_1187".to_string(),
        query: None, memory_types: None, limit: None,
    }).unwrap();
    assert_eq!(got.len(), 8);
}

#[test]
fn retrieve_memory_matches_query_ignoring_case() {
    let server = demo_server(SessionStatus::Active, DEMO_STATE);
    let got = server.retrieve_memory(RetrieveMemoryInput {
        subject_type: "customer".to_string(), subject_id: "cust_1187".to_string(),
        query: Some("EMAIL FOLLOW".to_string()), memory_types: Some(vec![MemoryType::ProfileMemory]), limit: None,
    }).unwrap();
    assert_eq!(got.len(), 1);
    assert_eq!(got[0].memory_id, "mem_demo_001");
    assert_eq!(got[0].confidence.map(f64::from_bits), Some(0.91));
    let got = server.retrieve_memory(RetrieveMemoryInput {
        subject_type: "customer".to_string(), subject_id: "cust_1187".to_string(),
        query: None, memory_types: Some(vec![MemoryType::TurnMemory]), limit: None,
    }).unwrap();
    assert!(got.is_empty());
}

#[test]
fn store_memory_writes_first_version() {
    let mut server = demo_server(SessionStatus::Active, DEMO_STATE);
    let id = server.store_memory(store_input("Preferred language: Swahili", Some(DataClass::Pii))).unwrap();
    assert!(is_fresh_id("mem_", &id), "{}", id);
    let e = server.memory_backend().get_memory(&id).unwrap();
    assert_eq!(e.content, "Preferred language: Swahili");
    assert_eq!(e.version, 1);
    assert_eq!(e.status, MemoryStatus::Active);
    assert_eq!(e.data_class, DataClass::Pii);
    assert_eq!(e.created_at, e.updated_at);
    assert!(e.source_artifact_ids.is_empty());
    assert_eq!(e.confidence.map(f64::from_bits), Some(0.95));
}

#[test]
fn store_memory_defaults_to_internal_class() {
    let mut server = demo_server(SessionStatus::Active, DEMO_STATE);
    let a = server.store_memory(store_input("a", None)).unwrap();
    let b = server.store_memory(store_input("b", None)).unwrap();
    assert_ne!(a, b);
    let e = server.memory_backend().get_memory(&a).unwrap();
    assert_eq!(e.data_class, DataClass::Internal);
}

#[test]
fn update_memory_makes_next_version() {
    let mut server = demo_server(SessionStatus::Active, DEMO_STATE);
    let id = server.update_memory(UpdateMemoryInput {
        memory_id: "mem_demo_001".to_string(), content: "Prefers phone".to_string(), reason: None,
    }).unwrap();
    assert_eq!(id, "mem_demo_001");
    let e = server.memory_backend().get_memory("mem_demo_001").unwrap();
    assert_eq!(e.content, "Prefers phone");
    assert_eq!(e.version, 2);
    assert_eq!(e.status, MemoryStatus::Active);
    assert_eq!(e.created_at, at(100));
    assert!(e.updated_at.secs > 100);
}

#[test]
fn update_missing_memory_fails() {
    let mut server = demo_server(SessionStatus::Active, DEMO_STATE);
    match server.update_memory(UpdateMemoryInput {
        memory_id: "mem_x".to_string(), content: "c".to_string(), reason: Some("r".to_string()),
    }) {
        Err(MemoryError::NotFound(id)) => assert_eq!(id, "mem_x"),
        other => panic!("unexpected {:?}", other),
    }
}

#[test]
fn delete_memory_reports_reason() {
    let mut server = demo_server(SessionStatus::Active, DEMO_STATE);
    let d = server.delete_memory(DeleteMemoryInput { memory_id: "mem_demo_001".to_string(), reason: None }).unwrap();
    assert_eq!(d.memory_id, "mem_demo_001");
    assert_eq!(d.reason, "not specified");
    let e = server.memory_backend().get_memory("mem_demo_001").unwrap();
    assert_eq!(e.status, MemoryStatus::Deleted);
    let got = server.retrieve_memory(RetrieveMemoryInput {
        subject_type: "customer".to_string(), subject_id: "cust_1187".to_string(),
        query: None, memory_types: None, limit: None,
    }).unwrap();
    assert!(got.is_empty());
    let mut server = demo_server(SessionStatus::Active, DEMO_STATE);
    let d = server.delete_memory(DeleteMemoryInput {
        memory_id: "mem_demo_001".to_string(), reason: Some("customer request".to_string()),
    }).unwrap();
    assert_eq!(d.reason, "customer request");
    match server.delete_memory(DeleteMemoryInput { memory_id: "mem_x".to_string(), reason: None }) {
        Err(MemoryError::NotFound(id)) => assert_eq!(id, "mem_x"),
        other => panic!("unexpected {:?}", other),
    }
}

#[test]
fn redact_memory_replaces_content_and_hides_entry() {
    let mut server = demo_server(SessionStatus::Active, DEMO_STATE);
    let r = server.redact_memory(RedactMemoryInput {
        memory_id: "mem_demo_001".to_string(),
        redacted_content: "Customer prefers [REDACTED] follow-up.".to_string(),
        fields_removed: None,
    }).unwrap();
    assert_eq!(r.memory_id, "mem_demo_001");
    assert!(r.fields_removed.is_empty());
    let e = server.memory_backend().get_memory("mem_demo_001").unwrap();
    assert_eq!(e.status, MemoryStatus::Redacted);
    assert_eq!(e.version, 2);
    assert_eq!(e.content, "Customer prefers [REDACTED] follow-up.");
    let got = server.retrieve_memory(RetrieveMemoryInput {
        subject_type: "customer".to_string(), subject_id: "cust_1187".to_string(),
        query: None, memory_types: None, limit: None,
    }).unwrap();
    assert!(got.is_empty());
    let r = server.redact_memory(RedactMemoryInput {
        memory_id: "mem_demo_001".to_string(),
        redacted_content: "x".to_string(),
        fields_removed: Some(vec!["email".to_string()]),
    }).unwrap();
    assert_eq!(r.fields_removed, vec!["email".to_string()]);
    assert_eq!(server.memory_backend().get_memory("mem_demo_001").unwrap().version, 3);
}

#[test]
fn list_memory_refs_describes_session_memory() {
    let mut server = demo_server(SessionStatus::Active, DEMO_STATE);
    server.store_memory(StoreMemoryInput {
        memory_type: MemoryType::TurnMemory,
        subject_type: "ticket".to_string(),
        subject_id: "t_9".to_string(),
        content: "other session".to_string(),
        data_class: None,
        source_session_id: Some("ses_other".to_string()),
        confidence: None,
    }).unwrap();
    let refs = server.list_memory_refs(ListMemoryRefsInput { session_id: "ses_demo_001".to_string() }).unwrap();
    assert_eq!(refs.len(), 1);
    assert_eq!(refs[0].memory_id, "mem_demo_001");
    assert_eq!(refs[0].memory_type, MemoryType::ProfileMemory);
    assert_eq!(refs[0].subject, "customer:cust_1187");
    assert_eq!(refs[0].data_class, DataClass::Pii);
    let refs = server.list_memory_refs(ListMemoryRefsInput { session_id: "ses_none".to_string() }).unwrap();
    assert!(refs.is_empty());
}

#[test]
fn create_replay_snapshot_freezes_session() {
    let mut server = demo_server(SessionStatus::Paused, DEMO_STATE);
    let receipt = server.create_replay_snapshot(CreateReplaySnapshotInput { session_id: "ses_demo_001".to_string() }).unwrap();
    assert!(is_fresh_id("snap_", &receipt.snapshot_id));
    assert_eq!(receipt.session_id, "ses_demo_001");
    assert_eq!(receipt.state_version, 3);
    server.resume_session(ResumeSessionInput {
        session_id: "ses_demo_001".to_string(),
        resume_payload: Some(serde_json::from_str(r#"{"approver":"manager_jane"}"#).unwrap()),
        reason: None,
    });
    let snap = server.session_backend().get_snapshot(&receipt.snapshot_id).unwrap();
    assert_eq!(snap.state_version, 3);
    assert_eq!(snap.session_id, "ses_demo_001");
    assert_eq!(snap.agent_id, "support_agent");
    assert_eq!(snap.agent_version.as_deref(), Some("v1.2.0"));
    assert_eq!(snap.memory_refs, vec!["mem_demo_001".to_string()]);
    assert!(snap.workflow_state.get("resume_payload").is_none());
    assert_eq!(snap.workflow_state["eligibility"], "approved");
}

#[test]
fn create_replay_snapshot_of_missing_session_fails() {
    let mut server = demo_server(SessionStatus::Paused, DEMO_STATE);
    match server.create_replay_snapshot(CreateReplaySnapshotInput { session_id: "ses_x".to_string() }) {
        Err(MemoryError::NotFound(id)) => assert_eq!(id, "ses_x"),
        other => panic!("unexpected {:?}", other),
    }
}

#[test]
fn resume_paused_session() {
    let mut server = demo_server(SessionStatus::Paused, DEMO_STATE);
    let out = server.resume_session(ResumeSessionInput {
        session_id: "ses_demo_001".to_string(),
        resume_payload: Some(serde_json::from_str(r#"{"approval_decision":"approved","approver":"manager_jane"}"#).unwrap()),
        reason: Some("Manager approved refund".to_string()),
    });
    match out {
        ResumeOutcome::Resumed { session_id } => assert_eq!(session_id, "ses_demo_001"),
        other => panic!("unexpected {:?}", other),
    }
    let s = server.session_backend().get_session("ses_demo_001").unwrap();
    assert_eq!(s.status, SessionStatus::Active);
    assert_eq!(s.state_version, 4);
    assert_eq!(s.workflow_state["resume_payload"]["approver"], "manager_jane");
    assert_eq!(s.workflow_state["eligibility"], "approved");
    let events = server.session_backend().list_events("ses_demo_001", None, 10).unwrap();
    assert_eq!(events.len(), 1);
    assert_eq!(events[0].event_type, EventType::SessionResumed);
    assert_eq!(events[0].actor, "operator");
    assert_eq!(events[0].summary, "Manager approved refund");
    assert_eq!(events[0].sequence, 0);
    assert!(is_fresh_id("evt_", &events[0].event_id));
}

#[test]
fn resume_twice_is_refused() {
    let mut server = demo_server(SessionStatus::Paused, DEMO_STATE);
    let input = || ResumeSessionInput { session_id: "ses_demo_001".to_string(), resume_payload: None, reason: None };
    assert!(matches!(server.resume_session(input()), ResumeOutcome::Resumed { .. }));
    match server.resume_session(input()) {
        ResumeOutcome::NotPaused { session_id, status } => {
            assert_eq!(session_id, "ses_demo_001");
            assert_eq!(status, SessionStatus::Active);
        }
        other => panic!("unexpected {:?}", other),
    }
    let s = server.session_backend().get_session("ses_demo_001").unwrap();
    assert_eq!(s.state_version, 4);
    let events = server.session_backend().list_events("ses_demo_001", None, 10).unwrap();
    assert_eq!(events.len(), 1);
    assert_eq!(events[0].summary, "Session resumed");
}

#[test]
fn resume_without_object_state_keeps_state() {
    let mut server = demo_server(SessionStatus::Paused, "[1,2]");
    let out = server.resume_session(ResumeSessionInput {
        session_id: "ses_demo_001".to_string(),
        resume_payload: Some(serde_json::Value::Bool(true)),
        reason: None,
    });
    assert!(matches!(out, ResumeOutcome::Resumed { .. }));
    let s = server.session_backend().get_session("ses_demo_001").unwrap();
    assert_eq!(s.workflow_state, serde_json::from_str::<serde_json::Value>("[1,2]").unwrap());
}

#[test]
fn resume_missing_session_fails() {
    let mut server = demo_server(SessionStatus::Paused, DEMO_STATE);
    match server.resume_session(ResumeSessionInput { session_id: "ses_x".to_string(), resume_payload: None, reason: None }) {
        ResumeOutcome::Failed(MemoryError::NotFound(id)) => assert_eq!(id, "ses_x"),
        other => panic!("unexpected {:?}", other),
    }
}

#[test]
fn terminate_session_records_reason() {
    let mut server = demo_server(SessionStatus::Active, DEMO_STATE);
    let t = server.terminate_session(TerminateSessionInput {
        session_id: "ses_demo_001".to_string(),
        reason: "Suspected policy violation during refund flow".to_string(),
        reason_code: Some("policy_violation".to_string()),
    }).unwrap();
    assert_eq!(t.session_id, "ses_demo_001");
    assert_eq!(t.reason, "Suspected policy violation during refund flow");
    let s = server.session_backend().get_session("ses_demo_001").unwrap();
    assert_eq!(s.status, SessionStatus::Terminated);
    assert_eq!(s.state_version, 3);
    let events = server.session_backend().list_events("ses_demo_001", None, 10).unwrap();
    assert_eq!(events[0].event_type, EventType::SessionTerminated);
    assert_eq!(events[0].summary, "Suspected policy violation during refund flow (policy_violation)");
    server.terminate_session(TerminateSessionInput {
        session_id: "ses_demo_001".to_string(), reason: "again".to_string(), reason_code: None,
    }).unwrap();
    let events = server.session_backend().list_events("ses_demo_001", None, 10).unwrap();
    assert_eq!(events.len(), 2);
    assert_eq!(events[0].summary, "again (manual)");
    assert_eq!(server.session_backend().get_session("ses_demo_001").unwrap().status, SessionStatus::Terminated);
}

#[test]
fn terminate_missing_session_fails() {
    let mut server = demo_server(SessionStatus::Active, DEMO_STATE);
    match server.terminate_session(TerminateSessionInput {
        session_id: "ses_x".to_string(), reason: "r".to_string(), reason_code: None,
    }) {
        Err(MemoryError::NotFound(id)) => assert_eq!(id, "ses_x"),
        other => panic!("unexpected {:?}", other),
    }
}

#[test]
fn redaction_keeps_prior_version() {
    let mut server = demo_server(SessionStatus::Active, DEMO_STATE);
    server.redact_memory(RedactMemoryInput {
        memory_id: "mem_demo_001".to_string(),
        redacted_content: "[REDACTED]".to_string(),
        fields_removed: None,
    }).unwrap();
    let versions = server.memory_backend().list_versions("mem_demo_001").unwrap();
    assert_eq!(versions.len(), 1);
    assert_eq!(versions[0].version, 1);
    assert_eq!(versions[0].status, MemoryStatus::Active);
    assert_eq!(versions[0].content, "Customer prefers email follow-up. Previous refund approved in March 2026.");
    let current = server.memory_backend().get_memory("mem_demo_001").unwrap();
    assert_eq!(current.content, "[REDACTED]");
    assert_eq!(current.version, 2);
}

#[test]
fn updates_add_one_version_each() {
    let mut server = demo_server(SessionStatus::Active, DEMO_STATE);
    let id = server.store_memory(store_input("v1", None)).unwrap();
    for c in ["v2", "v3", "v4"] {
        server.update_memory(UpdateMemoryInput { memory_id: id.clone(), content: c.to_string(), reason: None }).unwrap();
    }
    let e = server.memory_backend().get_memory(&id).unwrap();
    assert_eq!(e.version, 4);
    assert_eq!(e.content, "v4");
    assert_eq!(e.status, MemoryStatus::Active);
    let versions = server.memory_backend().list_versions(&id).unwrap();
    let contents: Vec<&str> = versions.iter().map(|v| v.content.as_str()).collect();
    assert_eq!(contents, vec!["v1", "v2", "v3"]);
    let numbers: Vec<u32> = versions.iter().map(|v| v.version).collect();
    assert_eq!(numbers, vec![1, 2, 3]);
    assert!(server.memory_backend().list_versions("mem_other").unwrap().is_empty());
}

#[test]
fn snapshot_survives_later_resume() {
    let mut server = demo_server(SessionStatus::Paused, DEMO_STATE);
    let receipt = server.create_replay_snapshot(CreateReplaySnapshotInput { session_id: "ses_demo_001".to_string() }).unwrap();
    server.resume_session(ResumeSessionInput {
        session_id: "ses_demo_001".to_string(),
        resume_payload: Some(serde_json::Value::Bool(true)),
        reason: None,
    });
    let snap = server.session_backend().get_snapshot(&receipt.snapshot_id).unwrap();
    assert_eq!(snap.state_version, 3);
    assert_eq!(snap.workflow_state, serde_json::from_str::<serde_json::Value>(DEMO_STATE).unwrap());
    assert_eq!(server.session_backend().get_session("ses_demo_001").unwrap().state_version, 4);
}

#[test]
fn resume_reports_resumed_whatever_the_writes_return() {
    let mut server = demo_server(SessionStatus::Paused, DEMO_STATE);
    let mut unknown = demo_session(SessionStatus::Paused, DEMO_STATE);
    unknown.session_id = "ses_unknown".to_string();
    let out = server.finish_resume(Ok(unknown), ResumeSessionInput {
        session_id: "ses_unknown".to_string(), resume_payload: None, reason: None,
    });
    assert!(matches!(out, ResumeOutcome::Resumed { .. }));
    assert!(server.session_backend().get_session("ses_unknown").is_err());
    let events = server.session_backend().list_events("ses_unknown", None, 10).unwrap();
    assert_eq!(events.len(), 1);
    assert_eq!(events[0].event_type, EventType::SessionResumed);
}

#[test]
fn terminate_acknowledged_whatever_the_writes_return() {
    let mut server = demo_server(SessionStatus::Active, DEMO_STATE);
    let mut unknown = demo_session(SessionStatus::Active, DEMO_STATE);
    unknown.session_id = "ses_unknown".to_string();
    let t = server.finish_terminate(Ok(unknown), TerminateSessionInput {
        session_id: "ses_unknown".to_string(), reason: "stop".to_string(), reason_code: None,
    }).unwrap();
    assert_eq!(t.session_id, "ses_unknown");
    assert_eq!(t.reason, "stop");
    let events = server.session_backend().list_events("ses_unknown", None, 10).unwrap();
    assert_eq!(events[0].summary, "stop (manual)");
}

#[test]
fn replies_are_worded_for_the_client() {
    assert_eq!(error_reply(&MemoryError::NotFound("ses_x".to_string())), "Error: not found: ses_x");
    assert_eq!(not_paused_reply("ses_demo_001", SessionStatus::Active), "Session ses_demo_001 is not paused (status: Active)");
    assert_eq!(not_paused_reply("s", SessionStatus::Terminated), "Session s is not paused (status: Terminated)");
}

#[test]
fn store_errors_are_handed_on_unchanged() {
    let mut server = demo_server(SessionStatus::Paused, DEMO_STATE);
    let err = MemoryError::Internal("disk full".to_string());
    match server.finish_resume(Err(err), ResumeSessionInput {
        session_id: "ses_demo_001".to_string(), resume_payload: None, reason: None,
    }) {
        ResumeOutcome::Failed(MemoryError::Internal(m)) => assert_eq!(m, "disk full"),
        other => panic!("unexpected {:?}", other),
    }
    assert_eq!(server.session_backend().get_session("ses_demo_001").unwrap().status, SessionStatus::Paused);
    match server.finish_update(Err(MemoryError::AccessDenied("no".to_string())), UpdateMemoryInput {
        memory_id: "mem_demo_001".to_string(), content: "x".to_string(), reason: None,
    }) {
        Err(MemoryError::AccessDenied(m)) => assert_eq!(m, "no"),
        other => panic!("unexpected {:?}", other),
    }
    assert_eq!(server.memory_backend().get_memory("mem_demo_001").unwrap().version, 1);
    match or_store_error(Err(MemoryError::DeletionBlocked("held".to_string())), 7u32) {
        Err(MemoryError::DeletionBlocked(m)) => assert_eq!(m, "held"),
        other => panic!("unexpected {:?}", other),
    }
    assert_eq!(or_store_error(Ok(()), 7u32).unwrap(), 7);
    match memory_refs_of(Err(MemoryError::Internal("down".to_string()))) {
        Err(MemoryError::Internal(m)) => assert_eq!(m, "down"),
        other => panic!("unexpected {:?}", other),
    }
}
