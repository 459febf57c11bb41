//! A terminal client for a federated chat protocol: an incremental
//! state-synchronization engine that folds partial server snapshots into
//! in-memory room and user state, and a modal multi-pane interface with a
//! tiling layout, verified with Verus.
//!
//! The crate holds the pure core: data model, sync engine, pane manager,
//! input state machine, request construction and render geometry. Network
//! transport, JSON decoding and the terminal driver live outside it and
//! exchange plain values with it.

pub mod app;
pub mod client;
pub mod handler;
pub mod layout;
pub mod render;
pub mod sync;
pub mod text;
