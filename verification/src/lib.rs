//! Peer discovery and session admission for a peer-to-peer network node.
//!
//! The crate models the decision core of a node's networking stack: a
//! discovery routing table that turns sightings of remote nodes into
//! discovery updates, an admission controller that gates which discovered
//! or requested nodes may become active sessions, a session registry that
//! tracks connection state per identity, an orchestrator that ties these
//! together and fans events out to subscribers, and a router that delivers
//! inbound protocol requests to externally installed sinks.
//!
//! All I/O (UDP sockets, timers, transport handshakes) stays outside; the
//! functions here take plain values such as the current time and return
//! the decisions and events that a driving loop acts on.

pub mod record;
pub mod ban;
pub mod registry;
pub mod config;
pub mod admission;
pub mod events;
pub mod discovery;
pub mod router;
pub mod orchestrator;
