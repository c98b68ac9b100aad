//! The RS-BA1 network protocol of the Icom IC-705.

pub mod control;
pub mod handshake;
pub mod owner;
pub mod passcode;
pub mod pkt0;
pub mod random;
pub mod rx;
pub mod serial;
pub mod setup;
pub mod stream;
pub mod wire;
