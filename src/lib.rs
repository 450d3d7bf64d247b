//! A small checksummed framing protocol for a controller and its peripherals
//! on a byte-oriented serial link.

pub mod digest;
pub mod endpoint;
pub mod frame;
pub mod raw;

pub use endpoint::{Endpoint, State};
pub use frame::{Addr, Error, Flags, Packet, PacketType};
pub use raw::{Decode, Encode, Raw};
