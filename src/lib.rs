//! A node-link diagram editor core: rectangular nodes with circular ports,
//! directed connections between ports of different nodes, and the pointer
//! gesture state machine that tells node drags from connection draws.

mod ids;

pub mod geometry;
pub mod node;
pub mod connection;
pub mod controller;
pub mod laws;
