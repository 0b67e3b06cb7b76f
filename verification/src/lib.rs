//! Synthesis of per-device forwarding plans and target configurations from a
//! network inventory snapshot.

pub mod access;
pub mod addressing;
pub mod bridging;
pub mod cable;
pub mod cable_chain;
pub mod config;
pub mod contents;
pub mod error;
pub mod fetch;
pub mod fetch_devices;
pub mod fetch_laws;
pub mod fetch_links;
pub mod fetch_prefixes;
pub mod freshness;
pub mod gap;
pub mod gap_order;
pub mod hw_facts;
pub mod inventory;
pub mod ip;
pub mod l2;
pub mod model;
pub mod naming;
pub mod parse;
pub mod plane_laws;
pub mod routing;
pub mod snapshot;
pub mod synth;
pub mod synth_laws;
pub mod table;
pub mod target;
pub mod text;
pub mod topology;
pub mod wireless;
