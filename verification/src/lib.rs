//! A durable record service for songs and singers.
//!
//! Records live in ordered stores over regions of one linear memory, are
//! numbered by a durable counter, and are persisted through a bounded binary
//! codec. Every operation states, over a mathematical model of the stored
//! bytes, what it returns and how it changes the stores.

pub mod codec;
pub mod counter;
pub mod laws;
pub mod memory;
pub mod service;
pub mod store;
pub mod types;
pub mod utils;
