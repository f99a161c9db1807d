//! What rxd does on the remote host.

pub mod actions;
pub mod hostinfo;
pub mod install;
pub mod serve;
pub mod start;
pub mod streams;
