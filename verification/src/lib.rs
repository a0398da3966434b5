//! Coordination core of a short-lived session relay for end-to-end-encrypted
//! message and file exchange between ad-hoc groups of devices.
//!
//! The durable registry (sessions, messages, public keys, share-token and
//! connection indices, usage counters) and the per-process relay tables are
//! modelled as verified in-memory structures.  The relay state machines
//! return the events they want delivered as plain values; the surrounding
//! program performs the socket and file-system work.

pub mod clock;
pub mod conversation;
pub mod guid;
pub mod handlers;
pub mod keyed;
pub mod lifecycle;
pub mod models;
pub mod protocol;
pub mod registry;
pub mod secure_line;
pub mod stats;
pub mod tokens;
pub mod text;
pub mod uploads;
