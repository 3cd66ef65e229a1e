//! A single node of a topic-based publish/subscribe overlay mesh.
//!
//! The node keeps a routing table that maps channels to the neighbors a
//! publish must be forwarded to, floods subscription requests across the
//! mesh, aggregates the acknowledgments that come back, buffers publishes
//! issued while a local subscription is still in flight, and tears routes
//! down again on unsubscribe. The protocol engine here is purely local:
//! every handler turns one incoming packet or local call into a new table
//! state and a list of [`reciever::Effect`]s (packets to hand to neighbor
//! sinks, payloads to deliver locally). Transport and scheduling live with
//! the caller.

pub mod assoc;
pub mod handler;
pub mod laws;
pub mod r_table;
pub mod reciever;
pub mod routes;
pub mod seg_queue;
pub mod skiplist;
pub mod transmitter;
pub mod waiting;
