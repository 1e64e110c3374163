//! A node of a cluster that talks in messages, one per line, and takes part
//! in a gossip-style broadcast along a topology it is told.
//!
//! - [`message`]: the envelope, its body and the payloads, each with its
//!   mathematical form.
//! - [`topology`]: the map from nodes to their neighbours.
//! - [`node`]: what every node has in common: its id, the counter that
//!   numbers its envelopes, the handshake, replies and requests.
//! - [`broadcast`], [`echo`], [`unique_id_gen`]: the nodes of the three
//!   workloads, each with the state machine it follows.
//! - [`logic`]: the dispatch of a session, line by line.
//!
//! The functions here decide and compute; they read and write nothing. What
//! a node emits is returned to the caller, in the order in which it is to be
//! written.

pub mod broadcast;
pub mod echo;
pub mod logic;
pub mod message;
pub mod node;
pub mod topology;
pub mod unique_id_gen;
