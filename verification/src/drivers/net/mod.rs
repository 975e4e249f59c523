//! Network drivers: the MTU configuration, the ring and register arithmetic
//! of the Intel and Realtek drivers and the virtio-net checksum handling.

pub mod gem;
pub mod ixgbe;
pub mod loopback;
pub mod rtl8139;
pub mod uhyve;
pub mod virtio;
pub mod virtio_mmio;
pub mod virtio_net;
pub mod virtio_pci;

use vstd::prelude::*;

use crate::parse::{parse_unsigned, spec_parse_unsigned};

verus! {

/// Default IP level MTU to use.
pub const DEFAULT_IP_MTU: u16 = 1500;

/// Default MTU to use: the IP MTU and a 14-byte ethernet header.
pub const DEFAULT_MTU: u16 = 1514;

/// The MTU to use: the one configured by the `HERMIT_MTU` variable, whose
/// value is `hermit_mtu`, or [`DEFAULT_MTU`] when it is not set.
pub fn mtu(hermit_mtu: Option<&str>) -> (r: u16)
    requires
        hermit_mtu matches Some(s) ==> spec_parse_unsigned(s@, u16::MAX as int) is Some,
    ensures
        hermit_mtu is None ==> r == DEFAULT_MTU,
        hermit_mtu matches Some(s) ==> Some(r as int) == spec_parse_unsigned(s@, u16::MAX as int),
{
    match hermit_mtu {
        Some(s) => match parse_unsigned(s, 0xffff) {
            Some(v) => {
                assert(v <= 0xffff);
                v as u16
            },
            None => {
                proof {
                    assert(false);
                }
                DEFAULT_MTU
            },
        },
        None => DEFAULT_MTU,
    }
}

} // verus!
