//! Everything for talking to NetMD devices.
pub mod base;
pub mod block_cipher;
pub mod commands;
pub mod encryption;
pub mod factory;
pub mod interface;
pub mod mappings;
pub mod query_utils;
pub mod title_laws;
pub mod titles;
pub mod utils;
