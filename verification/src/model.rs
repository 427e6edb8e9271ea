//! The values that the master, the secondaries and their clients exchange.

use vstd::prelude::*;

verus! {

/// A message that a client asks the master to broadcast.
#[derive(Clone, Debug, PartialEq, Eq)]
pub struct CreateMessage {
    pub message: String,
}

/// A message as it travels to a secondary and as a secondary stores it:
/// the text with the timestamp that the master gave it.
#[derive(Clone, Debug, PartialEq, Eq)]
pub struct LoggedMessage {
    pub message: String,
    pub timestamp: String,
}

/// The master's own record of one broadcast.
#[derive(Clone, Debug, PartialEq, Eq)]
pub struct MasterLogEntry {
    pub message: String,
    pub timestamp: String,
    /// Number of secondaries the message was broadcast to.
    pub sent: usize,
    /// Number of secondaries that acknowledged receipt.
    pub acked: usize,
}

/// A secondary as it registers itself with the master.
#[derive(Clone, Debug, PartialEq, Eq)]
pub struct SecondaryInfo {
    pub id: String,
    pub address: String,
}

/// The test knobs of a secondary: a display name (cosmetic only; the
/// registry id is still what routes and keys use), an artificial delay
/// before it acknowledges a received message, and a switch that makes it
/// refuse every received message.
#[derive(Clone, Debug, PartialEq, Eq)]
pub struct SecondarySettings {
    pub name: String,
    pub delay_ms: u64,
    pub failing: bool,
}

/// What the master answers to a posted message: the stamped message and
/// which secondaries acknowledged it and which did not.
#[derive(Clone, Debug, PartialEq, Eq)]
pub struct BroadcastResult {
    pub message: String,
    pub timestamp: String,
    pub delivered: Vec<String>,
    pub failed: Vec<String>,
}

/// The messages that one secondary holds.
#[derive(Clone, Debug, PartialEq, Eq)]
pub struct SecondaryLog {
    pub id: String,
    pub messages: Vec<LoggedMessage>,
}

/// The master's log together with every secondary's log.
#[derive(Clone, Debug, PartialEq, Eq)]
pub struct LogsResponse {
    pub master: Vec<MasterLogEntry>,
    /// Ordered by registration order (oldest first).
    pub secondaries: Vec<SecondaryLog>,
}

/// One delivery attempt that the master made against a secondary, kept so
/// that the attempt can be shown even for a secondary that never received
/// the message.
#[derive(Clone, Debug, PartialEq, Eq)]
pub struct RetryEntry {
    /// The message that was offered.
    pub message: String,
    /// The timestamp the master gave the message.
    pub timestamp: String,
    /// Which attempt this was, counting from 1.
    pub attempt: u32,
    /// Whether the secondary acknowledged this attempt.
    pub acked: bool,
}

/// One running container as the master lists it.
#[derive(Clone, Debug, PartialEq, Eq)]
pub struct ContainerInfo {
    pub id: String,
    pub name: String,
    pub image: String,
    pub state: String,
    pub status: String,
}

} // verus!
