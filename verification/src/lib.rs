//! Presence, rendezvous and transfer coordination for peer-to-peer file
//! hand-off.
//!
//! A peer announces itself to a rendezvous server, picks local files, and
//! pushes them to another online peer, who is notified and pulls the content
//! directly. This crate holds the decisions of both halves: the presence
//! directory and its wire protocol on the server side, and the import and
//! download pipelines that drive a content-addressed store on the peer side.
//! Sockets, the store itself and the user interface are left to the caller:
//! every pipeline here is a state machine that takes what the outside world
//! reported and answers with the next commands and events.

pub mod text;
pub mod json;
pub mod message;
pub mod progress;
pub mod collection;
pub mod ticket;
pub mod events;
pub mod download;
pub mod import;
pub mod directory;
pub mod server;
pub mod client;
pub mod account;

