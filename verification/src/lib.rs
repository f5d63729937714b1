//! Memory- and concurrency-bridging layer for an embedded script interpreter.
//!
//! The library models the runtime services that let a single-threaded,
//! blocking interpreter run on top of a cooperatively scheduled executor
//! while sharing one serial line:
//!
//! - [`arena`]: the fixed-capacity allocator backing the interpreter, with
//!   a size cookie stored in front of every block;
//! - [`console`]: the console channel, sole owner of the serial line, with
//!   an async-serialized write path and a blocking path;
//! - [`encoding`]: UTF-8 validation for text handed to the console;
//! - [`syscalls`]: the libc-style descriptor shim and the bump-heap shim;
//! - [`bridge`]: the host bridge that routes the interpreter's output and
//!   diagnostics through the console.
//!
//! Hardware access, the cooperative executor and the interpreter's foreign
//! calls live outside the library; every function here computes over plain
//! values and is verified.

pub mod arena;
pub mod bridge;
pub mod console;
pub mod encoding;
pub mod syscalls;
