//! Finds which processes own the socket bound to a TCP or UDP port.
//!
//! The library works on plain values: the lines of the kernel's connection
//! tables and a listing of the process table. Reading them from the
//! filesystem is left to the caller.

pub mod number;
pub mod owner;
pub mod owner_lemmas;
pub mod report;
pub mod socket;
pub mod socket_lemmas;
pub mod text;
pub mod unique;
