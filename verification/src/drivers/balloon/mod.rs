//! Bookkeeping of the virtio traditional memory balloon driver.
//!
//! The pages handed to the host are allocated in chunks of consecutive 4 KiB
//! pages. Each chunk remembers the physical page indices it owns and which of
//! them are queued for deflation. Allocating and freeing the memory itself is
//! done by the kernel's allocator; the functions here decide what to allocate,
//! which pages to hand back and by how much a chunk's allocation shrinks.

pub mod allocation;
pub mod driver;
pub mod queue;
pub mod storage;

use vstd::prelude::*;

verus! {

/// Errors that can occur during the lifetime and initialization of the
/// balloon driver. Feature sets are given by their bits.
#[derive(Debug, Copy, Clone, PartialEq, Eq)]
pub enum VirtioBalloonError {
    NoDevCfg { device_id: u16 },
    /// The device did not accept the negotiated features at the last step of negotiation.
    FeatureNegotiationFailed { device_id: u16 },
    /// Set of features requested by driver does not adhere to the requirements of features
    /// indicated by the specification
    FeatureRequirementsNotMet { driver_features: u128 },
    /// The features wanted by the driver are not all offered by the device.
    IncompatibleFeatureSets { driver_features: u128, device_features: u128 },
}

/// The handler for out-of-memory events of the kernel's allocator that
/// deflates the balloon to recover memory.
pub struct DeflateBalloonOnOom {
    _private: (),
}

impl DeflateBalloonOnOom {
    pub fn new() -> (r: Self) {
        DeflateBalloonOnOom { _private: () }
    }
}

} // verus!
