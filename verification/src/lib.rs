//! Control-plane gateway for programmable power supplies on a shared
//! half-duplex serial bus.
//!
//! The bus speaks a line-oriented ASCII protocol in which one device is
//! addressed at a time; devices may raise in-band attention ("SRQ")
//! signals as pairs of high-bit bytes. This crate holds the verified
//! core: line framing with SRQ extraction, the addressed-connection
//! cache, the retry machine, the online/offline scheduler, the request
//! multiplexer, the parser adapters, the parameter bindings and the
//! per-device supervisor. The surrounding asynchronous I/O drives these
//! state machines and is kept outside the library.

pub mod binding;
pub mod conn;
pub mod device_var;
pub mod emu;
pub mod frame;
pub mod iface;
pub mod mux;
pub mod num;
pub mod parser;
pub mod sched;
pub mod supervisor;
pub mod text;
pub mod types;
pub mod utils;

pub use types::{Addr, Priority, Signal};
