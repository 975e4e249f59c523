//! The virtio-rng driver: how a packet of the device becomes a seed.
//!
//! Reading from the device is I/O and happens outside this library; what the
//! library decides is whether the packet that came back is a seed.

use vstd::prelude::*;

verus! {

/// The size of a seed.
pub const SEED_LEN: usize = 32;

/// The seed a read from the random number device gives: the packet the
/// device answered with is copied to the front of a 32-byte buffer, and the
/// buffer is a seed only if the packet filled it. No packet, or a shorter
/// one, gives no seed.
pub fn seed_entropy(packet: Option<&[u8]>) -> (seed: Option<[u8; 32]>)
    requires
        packet matches Some(p) ==> p@.len() <= SEED_LEN,
    ensures
        seed is Some <==> (packet matches Some(p) && p@.len() == SEED_LEN),
        seed matches Some(s) ==> s@ == packet->0@,
{
    match packet {
        None => None,
        Some(src) => {
            let mut buf = [0u8; 32];
            let n = src.len();
            let mut i: usize = 0;
            while i < n
                invariant
                    n == src@.len() <= 32,
                    0 <= i <= n,
                    forall|j: int| 0 <= j < i ==> #[trigger] buf@[j] == src@[j],
                decreases n - i,
            {
                buf[i] = src[i];
                i = i + 1;
            }
            if n == SEED_LEN {
                assert(buf@ =~= src@);
                Some(buf)
            } else {
                None
            }
        },
    }
}

/// Errors of the virtio-rng driver.
#[derive(Clone, Copy, Debug, PartialEq, Eq)]
pub enum VirtioRngError {
    /// The device with this id has a missing or malformed device config.
    NoDevCfg(u16),
}

} // verus!
