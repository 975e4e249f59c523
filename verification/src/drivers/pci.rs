//! PCI devices: how their base address registers are encoded and mapped,
//! and the driver's errors.

use vstd::prelude::*;

verus! {

/// The number of base address registers of an endpoint.
pub const MAX_BARS: u8 = 6;

/// A base address register as the PCI bus reports it.
#[derive(Clone, Copy, Debug, PartialEq, Eq)]
pub enum Bar {
    /// An I/O port range.
    Io { port: u32 },
    /// A 32-bit memory range.
    Memory32 { address: u32, size: u32, prefetchable: bool },
    /// A 64-bit memory range, which takes two register slots.
    Memory64 { address: u64, size: u64, prefetchable: bool },
}

/// The value to write into a base address register to configure `bar`:
/// the address with the type and prefetchable bits of the encoding.
pub fn bar_register_value(bar: Bar) -> (r: u64)
    ensures
        r == (match bar {
            Bar::Io { port } => (port | 1) as u64,
            Bar::Memory32 { address, prefetchable, .. } => if prefetchable {
                (address | 8) as u64
            } else {
                address as u64
            },
            Bar::Memory64 { address, prefetchable, .. } => if prefetchable {
                address | 4 | 8
            } else {
                address | 4
            },
        }),
{
    match bar {
        Bar::Io { port } => (port | 1) as u64,
        Bar::Memory32 { address, size: _, prefetchable } => {
            if prefetchable {
                (address | 8) as u64
            } else {
                address as u64
            }
        },
        Bar::Memory64 { address, size: _, prefetchable } => {
            if prefetchable {
                address | 4 | 8
            } else {
                address | 4
            }
        },
    }
}

/// The physical range (address and size) to map for a base address
/// register: every memory range, 32-bit or 64-bit, that is assigned an
/// address; `None` for an I/O range, an absent register, or a memory range
/// at address 0, which is not assigned.
pub fn bar_mapping(bar: Option<Bar>) -> (r: Option<(u64, u64)>)
    ensures
        r == (match bar {
            Some(Bar::Memory32 { address, size, .. }) => if address != 0 {
                Some((address as u64, size as u64))
            } else {
                None
            },
            Some(Bar::Memory64 { address, size, .. }) => if address != 0 {
                Some((address, size))
            } else {
                None
            },
            _ => None,
        }),
{
    match bar {
        Some(Bar::Memory32 { address, size, prefetchable: _ }) => {
            if address == 0 {
                None
            } else {
                Some((address as u64, size as u64))
            }
        },
        Some(Bar::Memory64 { address, size, prefetchable: _ }) => {
            if address == 0 {
                None
            } else {
                Some((address, size))
            }
        },
        _ => None,
    }
}

/// Whether a device's interrupt line is in use: neither 0 nor 255.
pub fn irq_in_use(irq: u8) -> (r: bool)
    ensures
        r == (irq != 0 && irq != 255),
{
    irq != 0 && irq != 255
}

/// The register slot after `slot` when listing a device's base address
/// registers: a 64-bit memory range also takes the next slot.
pub fn next_bar_slot(slot: u8, bar: Option<Bar>) -> (r: u8)
    requires
        slot < MAX_BARS,
    ensures
        r == slot + 1 + (if bar matches Some(Bar::Memory64 { .. }) {
            1int
        } else {
            0
        }),
{
    match bar {
        Some(Bar::Memory64 { .. }) => slot + 2,
        _ => slot + 1,
    }
}

/// Errors of the PCI bus driver, each with the id of the device.
#[derive(Clone, Copy, Debug, PartialEq, Eq)]
pub enum PciError {
    General(u16),
    NoBar(u16),
    NoCapPtr(u16),
    NoVirtioCaps(u16),
}

} // verus!
