//! Verified core of the Hermit kernel's device drivers: the bookkeeping,
//! ring arithmetic, feature negotiation and parsing that the drivers perform
//! between their accesses to device registers.

pub mod console;
pub mod drivers;
pub mod entropy;
pub mod env;
pub mod errno;
pub mod parse;
