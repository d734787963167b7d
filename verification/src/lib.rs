//! Control of NetMD and Hi-MD MiniDisc recorders.
//!
//! The crate holds the protocol itself: the query codec, the request and
//! retry state machine, the secure session, the packet encryptor and the
//! title model. It performs no I/O. A connection is a [`netmd::base::NetMD`],
//! which is handed the transfers that the USB stack completed and names the
//! transfer it needs next.
pub mod netmd;
