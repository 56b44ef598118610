//! Verified core of an event-driven networking engine: connection identifiers,
//! engine options, load balancing, address parsing and byte buffers.

pub mod gfd;
pub mod pow2;
pub mod elastic;
pub mod options;
pub mod socket_addr;
pub mod bytes_buf;
pub mod connection;
pub mod balancer;
pub mod command;
pub mod handler;
pub mod event_loop;
pub mod buffer;
pub mod io_buffer;
pub mod codec;
