//! Connection-handling logic of a PROXY-aware RS2/JS5 TCP relay: decoding the
//! binary PROXY header that a load balancer puts in front of each client
//! connection, the client handshake, and the small decisions of the relay loop
//! and of the idle watchdog.

pub mod header;
pub mod handshake;
pub mod transfer;
pub mod config;
