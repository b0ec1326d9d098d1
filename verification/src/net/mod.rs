//! Networking: the parsing of the system's name service files, and the decisions of the
//! socket types.

pub mod dns;
pub mod getaddrinfo;
pub mod ip;
pub mod sockaddr;
pub mod socket;
pub mod tcp_stream;
pub mod to_socket_addr;
pub mod utils;
