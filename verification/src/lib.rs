//! Deterministic instruction metering for WebAssembly canisters, and the
//! registry of a sandbox process that runs them.

pub mod cost;
pub mod errors;
pub mod exports;
pub mod inject;
pub mod instrumentation;
pub mod metering;
pub mod methods;
pub mod model;
pub mod page_allocator;
pub mod plan;
pub mod protocol;
pub mod sandbox_manager;
pub mod segments;
pub mod wasm;
