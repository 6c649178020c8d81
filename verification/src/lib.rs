//! Control messages, binary market-data codecs and the routing, negotiation
//! and filtering rules of a market-data link.
//!
//! Everything here works on plain values: sockets, clocks and the Aeron media
//! driver stay with the caller, who hands in what they returned.

// Building blocks.
pub mod collections;
pub mod float64;
pub mod text;
pub mod wire;

// Messages and their codecs.
pub mod client_messages;
pub mod codec;
pub mod feature_messages;
pub mod layout;
pub mod mdp_messages;
pub mod notation;
pub mod protocol;
pub mod server_messages;

// Who is subscribed to what, and where data goes.
pub mod aeron_hub;
pub mod aeron_publisher;
pub mod broadcasting;
pub mod client_router;
pub mod filtering;
pub mod frame_filter;
pub mod outbox;
pub mod owning;
pub mod publication;
pub mod publishing;
pub mod ref_counts;
pub mod routes;
pub mod server;
pub mod subscribing;
pub mod waiting;
pub mod worker_link;

// Connections.
pub mod answering;
pub mod blocking;
pub mod client;
pub mod connection;
pub mod exchanging;
pub mod link_client;
pub mod negotiation;
pub mod session;
pub mod transport;
