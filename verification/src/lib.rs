//! Osiris: the verified core of a completion based, thread per core I/O runtime.

pub mod _priv;
pub mod buf;
pub mod driver;
pub mod error;
pub mod fs;
pub mod hasher;
pub mod io_uring;
pub mod reactor;
pub mod runtime;
pub mod net;
