//! Session memory: typed session state, scoped memory recall, replay
//! snapshots and resumable human-in-the-loop workflows, with the stores and
//! the tool logic verified.

pub mod error;
pub mod external;
pub mod types;
pub mod text;
pub mod store;
pub mod memory_store;
pub mod server;
pub mod laws;

pub use error::MemoryError;
pub use store::{MemoryStore, SessionStore};
pub use memory_store::{InMemoryMemoryStore, InMemorySessionStore};
pub use server::SessionMemoryServer;
pub use types::{
    DataClass, EventType, MemoryEntry, MemoryEntryView, MemoryStatus, MemoryType, ReplaySnapshot,
    ReplaySnapshotView, Session, SessionEvent, SessionStatus, SessionView, Timestamp,
};
