//! A relay hub for peers on persistent duplex connections.
//!
//! Text envelopes are fanned out to every connected peer. Binary envelopes
//! carry a 22-byte identifier header and reach only the peer that currently
//! owns that identifier in the connection registry.
//!
//! The library holds the registry, the binary routing rule and the
//! per-connection session state machine. Transport, the broadcast bus and
//! the task plumbing live in the server binary around it.

pub mod envelope;
pub mod registry;
pub mod router;
pub mod session;
