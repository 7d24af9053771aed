//! A file sharer for the local network: how devices find one another, the encrypted transfer of
//! files between them, and what a device keeps track of.

pub mod address;
pub mod arrival;
pub mod batch;
pub mod bytes;
pub mod chacha;
pub mod computations;
pub mod crypto;
pub mod devices;
pub mod digits;
pub mod discovery;
pub mod encoding;
pub mod exchange;
pub mod files;
pub mod history;
pub mod hmac;
pub mod http;
pub mod identity;
pub mod incoming;
pub mod modular;
pub mod names;
pub mod operations;
pub mod outgoing;
pub mod overlay;
pub mod protocol;
pub mod receiving;
pub mod sending;
pub mod service;
pub mod text;
pub mod transfer;
