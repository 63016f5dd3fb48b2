//! Decision core of a rendezvous and relay server.
//!
//! The rendezvous server brings peers together that want to talk to each other; the relay
//! server carries bytes between two of them that cannot reach each other. Everything that
//! the servers decide stands here; reading, writing and waiting is left to the program
//! around the library, which hands in what happened and carries out what is asked.
pub mod addr;
pub mod crypto;
pub mod laws;
pub mod message;
pub mod network;
pub mod peer;
pub mod proxy;
pub mod relay_server;
pub mod rendezvous_server;
pub mod sink_table;
pub mod str_table;
pub mod text;
pub mod time;
