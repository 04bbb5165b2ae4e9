//! The ingestion and upload pipeline of a desktop client for a video archive.
//!
//! The crate holds the decisions of the client: the per-file state machine,
//! the batched duplicate check, the multi-file selection model, the requests
//! sent to the archive and the way its answers are classified. Everything
//! that touches the disk, the network or the window lives with the caller,
//! which performs the [`message::Command`]s handed out by [`app::App::update`]
//! and reports back with [`message::Message`]s.

pub mod api;
pub mod app;
pub mod digest;
pub mod file;
pub mod laws;
pub mod media;
pub mod message;
pub mod model;
pub mod scenes;
pub mod selection;
