//! A verified core for a native-plugin runtime: a registry that tracks
//! discovery, loading, execution and unloading of independently compiled
//! plugin modules, a byte-oriented capability adapter over typed plugin
//! implementations, and a wire-level demultiplexer for streamed calls.
//!
//! All I/O (directory walking, dynamic-module loading, the actual plugin
//! calls) is performed by an unverified host around this library; the
//! library holds the state, the decisions and the data transformations,
//! each with a contract.

pub mod model;
pub mod id;
pub mod registry;
pub mod adapter;
pub mod plugins;
pub mod wire;
pub mod search;
pub mod resp;
pub mod pagination;
pub mod hostapi;
pub mod adb;
