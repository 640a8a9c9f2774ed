//! A game-controller input pipeline: raw polled device state is diffed into
//! discrete events, passed through an ordered chain of device-matched remap
//! rules, and deduplicated against the last delivered axis values before it
//! reaches the consumer.
//!
//! The device layer (enumeration, polling, file handles) is a collaborator of
//! the surrounding program: each poll pass hands this library the raw data it
//! gathered, and the library decides, deterministically and verifiably, which
//! events the consumer sees.

pub mod controller_manager;
pub mod diff;
pub mod input;
pub mod laws;
pub mod remap;
pub mod state;
