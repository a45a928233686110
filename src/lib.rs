//! Core of a VLESS proxy server: the request codec, connection
//! classification, the session and relay decisions, XTLS-Vision sniffing,
//! WebSocket handshake and framing, configuration checks and the helpers
//! around them, each with a contract proved by Verus.

pub mod base64;
pub mod buffer_pool;
pub mod config;
pub mod frame;
pub mod http;
pub mod literals;
pub mod memory;
pub mod protocol;
pub mod server;
pub mod stats;
pub mod text;
pub mod time;
pub mod utils;
pub mod wizard;
pub mod ws;
pub mod xtls;
