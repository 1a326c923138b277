//! Core logic of a per-room media playback coordinator.
//!
//! Each room owns a playback session: a queue of requests, a single
//! playback slot, and a voice-connection reference.  Requests that need an
//! external audio transformation are backed by a conversion job; all jobs
//! share one serial execution queue.  This crate holds the state machines,
//! the scheduler and the parsing rules; processes, the network and the chat
//! gateway live with the embedding application.

pub mod command;
pub mod data;
pub mod rvc;
pub mod text;
