//! Authoritative world state for a multi-client soldier-control game:
//! the entity store, the exclusive controller registry, command handling,
//! and the per-tick visibility reports, aggregated per connection.

pub mod types;
pub mod soldier;
pub mod world;
pub mod sensing;
pub mod laws;
pub mod codec;
pub mod server;
pub mod connection;
