//! Compiler from declarative stimulus programs to hardware testbench text.
//!
//! A stimulus program is an ordered sequence of clock cycles; each cycle
//! drives the circuit's input signals and may check its outputs. The
//! compiler emits one assignment statement per signal that changed since
//! the previous cycle, a wait statement per cycle, the requested
//! assertions, and a final stop statement.

pub mod model;
pub mod text;
pub mod emit;
pub mod loader;
pub mod assemble;
pub mod laws;
