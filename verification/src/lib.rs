//! Local port inventory: socket-table parsing, port/process correlation,
//! risk classification, and a two-phase process-termination protocol.
//!
//! The platform readers (`linux`, `macos`, `windows`) turn raw socket-table
//! text or decoded native-table fields into connection records; `monitor`
//! merges, deduplicates and classifies them into port records; `manager`
//! runs the graceful-then-forced kill protocol as a state machine whose
//! grace-period wait belongs to the caller; `admin` answers elevation
//! queries. `host` is the trusted boundary to the live system.

pub mod admin;
pub mod bytes;
pub mod host;
pub mod linux;
pub mod macos;
pub mod manager;
pub mod models;
pub mod monitor;
pub mod windows;
