//! An MQTT 3.1.1 client session core: the packet codec, the handshake state
//! machine, the keep-alive scheduler and the inbound dispatcher, all free of
//! I/O. Callers own the socket and the clock; this crate decides what is
//! sent, what a received byte stream means and which state follows.

pub mod packet;
pub mod wire;
mod mqtt_crate;
pub mod codec;
pub mod roundtrip;
pub mod session;
pub mod keep_alive;
pub mod dispatcher;
pub mod stream_laws;
pub mod registry;
pub mod config;
pub mod mqtt_lib;
pub mod handshake_laws;
pub mod utils;
pub mod http;
