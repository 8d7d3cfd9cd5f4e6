//! Wire-protocol engine and connection policy of a Minecraft reverse proxy.
pub mod codec;
pub mod commands;
pub mod decoder;
pub mod error;
pub mod fields;
pub mod json;
pub mod packet;
pub mod proxy;
pub mod repository;
pub mod session;
pub mod state;
pub mod text;
pub mod utils;
pub mod varint;
