//! Client side of a telematics login handshake: a stable device identifier for
//! an account, the request that asks for a session key, the credential sealed
//! under that key together with the time of sealing, and the reading of the
//! two replies.

pub mod numeral;
pub mod trusted;
pub mod identity;
pub mod material;
pub mod encrypt;
pub mod request;
pub mod reply;
pub mod handshake;
