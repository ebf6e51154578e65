//! Protocol client and orchestration rules for a chat-driven thermal label printer.
//!
//! The crate holds the wire codec, the frame reassembler, the row encoder, the
//! session and orchestrator state machines and the canvas pipeline rules. Device
//! and network I/O live outside: callers perform the actions that the state
//! machines ask for and hand the observed events back.

pub mod bitmap;
pub mod canvas;
pub mod config;
pub mod exchange;
pub mod fallback_parser;
pub mod icons;
pub mod ingest;
pub mod irc;
pub mod notify;
pub mod orchestrator;
pub mod packet;
pub mod pipeline;
pub mod placement;
pub mod protocol;
pub mod reassembler;
pub mod request;
pub mod session;
pub mod stamp;
pub mod text;
pub mod text_parser;
pub mod text_scan;
pub mod webp;
