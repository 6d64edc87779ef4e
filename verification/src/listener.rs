//! Listeners: the decisions of their accept loops and of the connections and
//! requests that they serve.
pub mod course;
pub mod datagram;
pub mod dispatch;
pub mod http;
pub mod laws;
pub mod quic;
pub mod service;
pub mod socket;
pub mod stream;
