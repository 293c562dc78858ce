//! Shared-memory channels, ring buffers and packet framing for the kaze sidecar.
use vstd::prelude::*;

pub mod bytes;
pub mod channel;
pub mod clap_merge;
pub mod codec;
pub mod config;
pub mod config_value;
pub mod consul;
pub mod corral;
pub mod documented_toml;
pub mod edge;
pub mod edge_sink;
pub mod merge_derive;
pub mod message;
pub mod plugin;
pub mod queue_bytes;
pub mod resolver;
pub mod ringbuf;
pub mod shm;
pub mod sink;
pub mod text;
pub mod toml_derive;

verus! {

} // verus!
