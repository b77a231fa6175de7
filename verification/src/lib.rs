//! Ecdysis: a mesh of byte-level state machines that grow a RAM state graph
//! on unmapped input, decay it, and periodically recompile the surviving
//! structure into a WebAssembly module.

pub mod arena;
pub mod firehose;
pub mod graph;
pub mod host_store;
pub mod incubator;
pub mod kernel;
pub mod live;
pub mod wasm;
