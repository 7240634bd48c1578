use vstd::prelude::*;
use serde_json::Value;

verus! {

/// Lifecycle state of an agent session.
#[derive(Debug, Clone, Copy, PartialEq, Eq, Structural)]
pub enum SessionStatus {
    Active,
    Paused,
    Completed,
    Terminated,
    Failed,
}

/// The kinds of memory the store keeps.
#[derive(Debug, Clone, Copy, PartialEq, Eq, Structural)]
pub enum MemoryType {
    TurnMemory,
    SessionState,
    ProfileMemory,
    ProjectMemory,
    ArtifactMemory,
}

/// Sensitivity class of a piece of data.
#[derive(Debug, Clone, Copy, PartialEq, Eq, Structural)]
pub enum DataClass {
    Public,
    Internal,
    Pii,
    Financial,
    Health,
    LegalSensitive,
}

/// Operational event kinds recorded against a session.
#[derive(Debug, Clone, Copy, PartialEq, Eq, Structural)]
pub enum EventType {
    SessionStarted,
    TurnAdded,
    ToolCalled,
    ToolResultReceived,
    MemoryRetrieved,
    MemoryStored,
    ArtifactCreated,
    PolicyGateTriggered,
    ApprovalRequested,
    SessionPaused,
    SessionResumed,
    SessionTerminated,
    SnapshotCreated,
}

/// Status of a memory entry; deletion and redaction are logical.
#[derive(Debug, Clone, Copy, PartialEq, Eq, Structural)]
pub enum MemoryStatus {
    Active,
    Redacted,
    Deleted,
    Stale,
}

/// A UTC instant: whole seconds since the Unix epoch and the nanoseconds
/// past that second.
#[derive(Debug, Clone, Copy, PartialEq, Eq, Structural)]
pub struct Timestamp {
    pub secs: i64,
    pub nanos: u32,
}

/// Core session record.
#[derive(Debug)]
pub struct Session {
    pub session_id: String,
    pub agent_id: String,
    pub agent_version: Option<String>,
    pub workflow_id: Option<String>,
    pub status: SessionStatus,
    pub current_node: Option<String>,
    pub state_version: u32,
    pub workflow_state: Value,
    pub memory_refs: Vec<String>,
    pub artifact_refs: Vec<String>,
    pub data_classes: Vec<DataClass>,
    pub created_at: Timestamp,
    pub updated_at: Timestamp,
}

/// The value of a session record, with its lists as sequences.
pub struct SessionView {
    pub session_id: String,
    pub agent_id: String,
    pub agent_version: Option<String>,
    pub workflow_id: Option<String>,
    pub status: SessionStatus,
    pub current_node: Option<String>,
    pub state_version: u32,
    pub workflow_state: Value,
    pub memory_refs: Seq<String>,
    pub artifact_refs: Seq<String>,
    pub data_classes: Seq<DataClass>,
    pub created_at: Timestamp,
    pub updated_at: Timestamp,
}

impl View for Session {
    type V = SessionView;

    open spec fn view(&self) -> SessionView {
        SessionView {
            session_id: self.session_id,
            agent_id: self.agent_id,
            agent_version: self.agent_version,
            workflow_id: self.workflow_id,
            status: self.status,
            current_node: self.current_node,
            state_version: self.state_version,
            workflow_state: self.workflow_state,
            memory_refs: self.memory_refs@,
            artifact_refs: self.artifact_refs@,
            data_classes: self.data_classes@,
            created_at: self.created_at,
            updated_at: self.updated_at,
        }
    }
}


impl Clone for Session {
    fn clone(&self) -> (r: Self)
        ensures
            r@ == self@,
    {
        let r = Session {
            session_id: self.session_id.clone(),
            agent_id: self.agent_id.clone(),
            agent_version: self.agent_version.clone(),
            workflow_id: self.workflow_id.clone(),
            status: self.status,
            current_node: self.current_node.clone(),
            state_version: self.state_version,
            workflow_state: self.workflow_state.clone(),
            memory_refs: self.memory_refs.clone(),
            artifact_refs: self.artifact_refs.clone(),
            data_classes: self.data_classes.clone(),
            created_at: self.created_at,
            updated_at: self.updated_at,
        };
        assert(r.memory_refs@ =~= self.memory_refs@);
        assert(r.artifact_refs@ =~= self.artifact_refs@);
        assert(r.data_classes@ =~= self.data_classes@);
        r
    }
}

/// A memory entry: scoped to a subject, typed and versioned.
/// `confidence` holds the IEEE-754 bit pattern of the confidence score.
#[derive(Debug)]
pub struct MemoryEntry {
    pub memory_id: String,
    pub memory_type: MemoryType,
    pub subject_type: String,
    pub subject_id: String,
    pub content: String,
    pub data_class: DataClass,
    pub source_session_id: Option<String>,
    pub source_artifact_ids: Vec<String>,
    pub confidence: Option<u64>,
    pub version: u32,
    pub status: MemoryStatus,
    pub created_at: Timestamp,
    pub updated_at: Timestamp,
}

/// The value of a memory entry, with its list as a sequence.
pub struct MemoryEntryView {
    pub memory_id: String,
    pub memory_type: MemoryType,
    pub subject_type: String,
    pub subject_id: String,
    pub content: String,
    pub data_class: DataClass,
    pub source_session_id: Option<String>,
    pub source_artifact_ids: Seq<String>,
    pub confidence: Option<u64>,
    pub version: u32,
    pub status: MemoryStatus,
    pub created_at: Timestamp,
    pub updated_at: Timestamp,
}

impl View for MemoryEntry {
    type V = MemoryEntryView;

    open spec fn view(&self) -> MemoryEntryView {
        MemoryEntryView {
            memory_id: self.memory_id,
            memory_type: self.memory_type,
            subject_type: self.subject_type,
            subject_id: self.subject_id,
            content: self.content,
            data_class: self.data_class,
            source_session_id: self.source_session_id,
            source_artifact_ids: self.source_artifact_ids@,
            confidence: self.confidence,
            version: self.version,
            status: self.status,
            created_at: self.created_at,
            updated_at: self.updated_at,
        }
    }
}

impl Clone for MemoryEntry {
    fn clone(&self) -> (r: Self)
        ensures
            r@ == self@,
    {
        let r = MemoryEntry {
            memory_id: self.memory_id.clone(),
            memory_type: self.memory_type,
            subject_type: self.subject_type.clone(),
            subject_id: self.subject_id.clone(),
            content: self.content.clone(),
            data_class: self.data_class,
            source_session_id: self.source_session_id.clone(),
            source_artifact_ids: self.source_artifact_ids.clone(),
            confidence: self.confidence,
            version: self.version,
            status: self.status,
            created_at: self.created_at,
            updated_at: self.updated_at,
        };
        assert(r.source_artifact_ids@ =~= self.source_artifact_ids@);
        r
    }
}

/// Session event: an operational record, not a raw trace.
#[derive(Debug)]
pub struct SessionEvent {
    pub event_id: String,
    pub session_id: String,
    pub sequence: u64,
    pub event_type: EventType,
    pub actor: String,
    pub summary: String,
    pub data_class: Option<DataClass>,
    pub created_at: Timestamp,
}

impl Clone for SessionEvent {
    fn clone(&self) -> (r: Self)
        ensures
            r == *self,
    {
        SessionEvent {
            event_id: self.event_id.clone(),
            session_id: self.session_id.clone(),
            sequence: self.sequence,
            event_type: self.event_type,
            actor: self.actor.clone(),
            summary: self.summary.clone(),
            data_class: self.data_class,
            created_at: self.created_at,
        }
    }
}

/// Replay snapshot: a frozen copy of a session's context.
#[derive(Debug)]
pub struct ReplaySnapshot {
    pub snapshot_id: String,
    pub session_id: String,
    pub state_version: u32,
    pub workflow_state: Value,
    pub memory_refs: Vec<String>,
    pub artifact_refs: Vec<String>,
    pub agent_id: String,
    pub agent_version: Option<String>,
    pub created_at: Timestamp,
}

/// The value of a replay snapshot, with its lists as sequences.
pub struct ReplaySnapshotView {
    pub snapshot_id: String,
    pub session_id: String,
    pub state_version: u32,
    pub workflow_state: Value,
    pub memory_refs: Seq<String>,
    pub artifact_refs: Seq<String>,
    pub agent_id: String,
    pub agent_version: Option<String>,
    pub created_at: Timestamp,
}

impl View for ReplaySnapshot {
    type V = ReplaySnapshotView;

    open spec fn view(&self) -> ReplaySnapshotView {
        ReplaySnapshotView {
            snapshot_id: self.snapshot_id,
            session_id: self.session_id,
            state_version: self.state_version,
            workflow_state: self.workflow_state,
            memory_refs: self.memory_refs@,
            artifact_refs: self.artifact_refs@,
            agent_id: self.agent_id,
            agent_version: self.agent_version,
            created_at: self.created_at,
        }
    }
}

impl Clone for ReplaySnapshot {
    fn clone(&self) -> (r: Self)
        ensures
            r@ == self@,
    {
        let r = ReplaySnapshot {
            snapshot_id: self.snapshot_id.clone(),
            session_id: self.session_id.clone(),
            state_version: self.state_version,
            workflow_state: self.workflow_state.clone(),
            memory_refs: self.memory_refs.clone(),
            artifact_refs: self.artifact_refs.clone(),
            agent_id: self.agent_id.clone(),
            agent_version: self.agent_version.clone(),
            created_at: self.created_at,
        };
        assert(r.memory_refs@ =~= self.memory_refs@);
        assert(r.artifact_refs@ =~= self.artifact_refs@);
        r
    }
}

} // verus!
