//! Host-side logic of a GPU compute runtime: the block allocator, buffers and their futures,
//! the worker protocol, the engine's planning, the kernel cache, the SPIR-V specializer and
//! the dispatch frontend.
//!
//! The library decides and keeps the books; the device itself is driven by its caller, which
//! performs what the library plans and reports back what came of it.
pub mod buffer;
pub mod cache;
pub mod constant;
pub mod desc;
pub mod dispatch;
pub mod engine;
pub mod error;
pub mod fconvert;
pub mod features;
pub mod freeze;
pub mod idmap;
pub mod kernel;
pub mod scalar;
pub mod slab;
pub mod specialize;
pub mod spirv;
pub mod worker;
