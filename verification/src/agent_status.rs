//! Agent status: events that agents produce, the session status they drive, and the adapters that
//! turn terminal signals into events.
pub mod adapters;
pub mod bridge;
pub mod bridge_laws;
pub mod codex_context;
pub mod events;
pub mod manager;
