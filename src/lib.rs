//! Sampling, bounded history and multi-consumer broadcast of host resource
//! metrics.
//!
//! The operating-system queries, the terminal drawing and the network
//! transport live outside this library: they hand it plain readings and
//! events, and it decides what to keep, what to publish and what to send.
pub mod encode;
pub mod fanout;
pub mod history;
pub mod metrics;
pub mod render;
pub mod resources;
pub mod stream;
