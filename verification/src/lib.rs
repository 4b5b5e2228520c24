//! Wire protocol for a fleet of workers that report machine inventory to a
//! central server and receive remote power-up commands.
//!
//! The crate provides the protocol layer only: a length-prefixed binary
//! message codec for the two message directions, the authentication
//! handshake that must precede inventory and command traffic, and the
//! inventory data model carried by `Update` messages.

use vstd::prelude::*;

mod hwaddr;
pub mod crypto;
pub mod handshake;
pub mod inventory;
pub mod messages;
pub mod payload;

pub use hwaddr::HwAddr;
pub use hwaddr::HwAddrParseError;

verus! {

/// Well-known default port a server listens on, overridable by configuration.
pub const DEFAULT_PORT: u16 = 61011;

} // verus!
