//! A verified nonvolatile-storage allocator and driver.
//!
//! The library multiplexes one physical nonvolatile storage device among many
//! mutually isolated applications and the kernel. Each application gets a
//! private region that survives reboots; region assignment is rediscovered
//! after every boot by walking a chain of on-media region headers. All
//! physical accesses are serialized through a single in-flight operation.
//!
//! The physical transport is outside this library: every entry point returns
//! the physical operation to start (if any), and the completion events
//! (`read_done` / `write_done`) are fed back in by the caller.

pub mod chain;
pub mod codec;
pub mod driver;
pub mod laws;
pub mod types;
