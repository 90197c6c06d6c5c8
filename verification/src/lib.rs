//! Decoding, validation and placeholder resolution for governance messages
//! that reach a Solana program from a remote chain.
//!
//! A bridge hands over an authenticated byte payload. The payload is parsed
//! into a governance message, the message is checked against the configured
//! authority, every placeholder address in it is replaced by the address it
//! stands for, and the result is an instruction that is ready to be invoked.

pub mod account;
pub mod address;
pub mod codec;
pub mod discriminator;
pub mod error;
pub mod executor;
pub mod hexadecimal;
pub mod layerzero;
pub mod resolve;
pub mod validate;
pub mod wormhole;
