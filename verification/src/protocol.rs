//! Control messages of the attach/list protocol. Every message travels inside
//! one frame of the codec; which schema a payload carries is decided by the
//! protocol state, not by the bytes themselves.

use vstd::prelude::*;

verus! {

/// The header a client sends right after connecting.
pub enum ConnectHeader {
    /// Bind this connection to the named session, creating it if needed.
    Attach(AttachHeader),
    /// Ask for the registered sessions; carries no payload.
    List,
}

/// The name an attach request carries.
pub struct AttachHeader {
    pub name: String,
}

/// The status an attach request resolves to.
#[derive(Debug, PartialEq, Eq, Structural, Clone, Copy)]
pub enum AttachStatus {
    /// The name was unseen; a fresh shell was spawned for it.
    Created,
    /// The session existed and was idle; this connection took it over.
    Attached,
    /// The session is being pumped by another connection; nothing changed.
    Busy,
}

/// The reply to an attach request.
#[derive(Debug, PartialEq, Eq, Structural, Clone, Copy)]
pub struct AttachReplyHeader {
    pub status: AttachStatus,
}

/// One session summary inside a list reply.
pub struct Session {
    pub name: String,
    pub started_at_unix_ms: i64,
}

/// The reply to a list request: every registered session.
pub struct ListReply {
    pub sessions: Vec<Session>,
}

/// The kind tag of a generic data chunk.
#[derive(Debug, PartialEq, Eq, Structural, Clone, Copy)]
pub enum ChunkKind {
    Data,
}

/// A generic typed data chunk, layered on the same framing by ancillary
/// features such as message-of-the-day delivery.
pub struct Chunk {
    pub kind: ChunkKind,
    pub buf: Vec<u8>,
}

} // verus!
