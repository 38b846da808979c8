//! Keeps the text channels of a guild in natural-sort order of their names.
//!
//! The crate holds the decisions of the reconciliation engine: how channels
//! are ranked, which position changes a pass asks for, which guilds have a
//! pass in flight, and which command prefix a guild uses. Talking to the
//! gateway and to the persistent store is left to the caller, who feeds the
//! outcomes back in as plain values.

pub mod applied;
pub mod channel;
pub mod config;
pub mod dispatch;
pub mod locks;
pub mod natural;
pub mod order;
pub mod order_laws;
pub mod prefix;
pub mod reconcile;
pub mod reconcile_laws;
