//! Verified core of a session-actor platform: the connection registry,
//! control-state replication and liveness rules of a single-writer session
//! actor, and the confidence-gated transcription pipeline it hosts.

pub mod analytics;
pub mod control;
pub mod cookies;
pub mod energy;
pub mod lifecycle;
pub mod liveness;
pub mod registry;
pub mod routes;
pub mod page;
pub mod pipeline;
pub mod scorer;
pub mod scripture;
pub mod session;
pub mod sql;
pub mod template;
pub mod text;
pub mod wav;
