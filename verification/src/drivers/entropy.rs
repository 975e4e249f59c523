//! The virtio entropy driver: how a packet of the device becomes a seed.

use vstd::prelude::*;

use crate::drivers::rng::SEED_LEN;

verus! {

/// The seed a read from the entropy device gives: the device's packet where
/// it is exactly 32 bytes long, nothing where it is shorter or no packet came.
pub fn seed_entropy(packet: Option<&[u8]>) -> (seed: Option<[u8; 32]>)
    requires
        packet matches Some(p) ==> p@.len() <= SEED_LEN,
    ensures
        seed is Some <==> (packet matches Some(p) && p@.len() == SEED_LEN),
        seed matches Some(s) ==> s@ == packet->0@,
{
    crate::drivers::rng::seed_entropy(packet)
}

/// Errors of the virtio entropy driver.
#[derive(Clone, Copy, Debug, PartialEq, Eq)]
pub enum VirtioEntropyError {
    /// The device with this id has a missing or malformed device config.
    NoDevCfg(u16),
    /// The device with this id did not acknowledge the negotiated features.
    FailFeatureNeg(u16),
}

} // verus!
