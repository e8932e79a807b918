//! Jacquard mesh routing over Bluetooth Low Energy.

pub mod authoring;
pub mod bridge;
pub mod cast;
pub mod cast_support;
pub mod client;
pub mod client_loop;
pub mod config;
pub mod delivery;
pub mod effects;
pub mod endpoint;
pub mod errors;
pub mod fanout_support;
pub mod framing;
pub mod gatt;
pub mod hex_text;
pub mod host;
pub mod identity;
pub mod invite;
pub mod l2cap;
pub mod link;
pub mod multicast;
pub mod node_preset;
pub mod notify;
pub mod ordered_map;
pub mod peers;
pub mod projector;
pub mod routing;
pub mod runtime;
pub mod send;
pub mod service;
pub mod session;
pub mod startup;
pub mod topology;
pub mod world;
