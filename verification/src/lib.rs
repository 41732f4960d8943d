//! KCP sessions with optional forward error correction, as a set of verified
//! state machines.
//!
//! Nothing in this crate touches a socket. A caller hands in the datagrams it
//! received and the current time, and gets back what to send, what to deliver
//! and whom to wake.

pub mod codec;
pub mod config;
pub mod error;
pub mod fec;
pub mod link;
pub mod listener;
pub mod output;
pub mod scheduler;
pub mod segment;
pub mod session;
pub mod skcp;
pub mod stream;
pub mod utils;
pub mod wire;

pub use config::{KcpConfig, KcpFecConfig, KcpNoDelayConfig};
pub use session::{KcpSession, KcpSessionManager};
pub use skcp::KcpSocket;
pub use stream::KcpStream;
