//! The verified core of a throughput meter for time-sensitive networks.
//!
//! A client and a server exchange raw Ethernet frames. The client announces a
//! measurement; the server answers it, counts the data frames and keeps a
//! second thread informed that prints the rates. This crate holds the frame
//! format, the server's answers, the client's request and the arithmetic of
//! the reports. Sockets, printing and threads are left to the program around
//! it.

pub mod address;
pub mod byte_order;
pub mod client;
pub mod clock;
pub mod frame;
pub mod opcode;
pub mod server;
pub mod statistics;
pub mod time;
