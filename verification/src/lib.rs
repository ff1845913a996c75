//! Core logic of a transparent stratum mining proxy that sits between
//! mining hardware and a pool or coin daemon, speaking two incompatible
//! wire protocols: a line-based JSON-RPC family (V1) and a binary,
//! Noise-encrypted, length-framed family (V2).
//!
//! - [`transport`] classifies a connection by its first byte, models the
//!   handshake state machine, and assembles frames across partial reads.
//! - [`noise`] is the secured channel: the two-message handshake for
//!   either role and the encrypted transport, driven without I/O.
//! - [`json`] and [`sv1`] hold the V1 wire format: a verified JSON
//!   subset codec and the JSON-RPC message envelope, with a proved
//!   encode/parse round trip.
//! - [`translator`] and [`passthrough`] reshape and observe traffic:
//!   login, submit and keep-alive handling, job-id mapping, and the
//!   share submissions reported to the accounting collaborator.
//! - [`job_tracker`] and [`difficulty`] bound the remembered jobs and
//!   derive exact difficulties from hexadecimal targets.
//! - [`sv2`], [`target`], [`template`] and [`keys`] classify binary
//!   messages, describe upstream targets, cut jobs from block templates,
//!   and parse authority keys.
//!
//! Sockets, HTTP calls to the collaborators, and the scheduling of the
//! two forwarding directions stay outside this crate; everything here
//! works on plain values handed in and out.

pub mod difficulty;
pub mod job_tracker;
pub mod json;
pub mod keys;
pub mod noise;
pub mod numeric;
pub mod passthrough;
pub mod sv1;
pub mod sv2;
pub mod target;
pub mod template;
pub mod translator;
pub mod transport;
pub mod strings;
