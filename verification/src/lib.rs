//! A verified core for a real-time text chat hub.
//!
//! Clients claim a unique display name and exchange broadcast messages.
//! The crate holds the rules of that exchange as sequential, verified
//! data structures: the set of claimed names, the fan-out bus with its
//! bounded per-subscriber buffers, and the per-connection life cycle.
//! A host program guards one [`hub::Hub`] with a lock, feeds it what it
//! reads from each connection and writes out what the hub hands back.

pub mod bus;
pub mod client;
pub mod hub;
pub mod laws;
pub mod model;
pub mod registry;
pub mod session;
pub mod validity;
pub mod wire;
