//! Agent-friendly remote process execution: the rules behind `rx` and `rxd`.

pub mod cli;
pub mod daemon;
pub mod deploy;
pub mod encoding;
pub mod env;
pub mod error;
pub mod framing;
pub mod json;
pub mod number;
pub mod path;
pub mod process;
pub mod protocol;
pub mod remote;
pub mod ssh;
pub mod text;
pub mod wire;

pub use encoding::{base64_decode, base64_encode, encode_bytes, Encoding};
