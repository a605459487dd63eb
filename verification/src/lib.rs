//! Session logic for a streaming transcription relay.
//!
//! Clients send framed audio chunks over a duplex connection; each chunk is
//! staged to a uniquely named file and handed by path to a long-lived
//! inference engine over a line-oriented protocol, which answers with one
//! line of text per chunk.  When the client signals end of stream, the
//! accumulated transcript is sent back as a single text frame.
//!
//! This crate holds the verified core: the per-connection session state
//! machine, the transcript bookkeeping, and the construction of staged-file
//! names and engine request lines.  The surrounding transport, file system
//! and subprocess plumbing drive these functions from outside.

pub mod lines;
pub mod session;
pub mod staging;
