//! The Cadence GEM Ethernet controller: its descriptor lists and register
//! values.
//!
//! The controller finds its buffers through two lists of descriptors of two
//! 32-bit words each. A receive descriptor holds the buffer's address in its
//! first word, with bit 0 set once the controller filled the buffer and
//! bit 1 marking the last descriptor; its second word holds the frame's
//! length. A transmit descriptor holds the buffer's address in its first
//! word; its second word holds the length and flags.

use vstd::prelude::*;

verus! {

/// Size of a receive buffer.
pub const RX_BUF_LEN: u32 = 1600;
/// The receive buffer size is programmed in units of this many bytes.
pub const RX_BUFFER_MULTIPLE: u32 = 64;
/// Number of receive buffers.
pub const RX_BUF_NUM: u32 = 64;
/// Size of a transmit buffer.
pub const TX_BUF_LEN: u32 = 1600;
/// Number of transmit buffers.
pub const TX_BUF_NUM: u32 = 1;
/// Transmit descriptor flag: the last buffer of a frame.
pub const TX_DESC_LAST: u32 = 0x8000;
/// Transmit descriptor flag: the last descriptor of the list.
pub const TX_DESC_WRAP: u32 = 0x4000_0000;
/// Transmit descriptor flag: the buffer is free for the driver.
pub const TX_DESC_USED: u32 = 0x8000_0000;
/// Receive descriptor flag: the controller filled the buffer.
pub const RX_DESC_OWNED: u32 = 1;
/// Receive descriptor flag: the last descriptor of the list.
pub const RX_DESC_WRAP: u32 = 2;

/// Errors of the GEM driver.
#[derive(Clone, Copy, Debug, PartialEq, Eq)]
pub enum GEMError {
    InitFailed,
    ResetFailed,
    NoPhyFound,
    Unknown,
}

/// The two specific-address registers that hold a MAC address: its first
/// four bytes, least significant first, and its last two.
pub fn mac_address_registers(mac: [u8; 6]) -> (r: (u32, u32))
    ensures
        r.0 == mac[0] + mac[1] * 0x100 + mac[2] * 0x1_0000 + mac[3] * 0x100_0000,
        r.1 == mac[4] + mac[5] * 0x100,
{
    let b0 = mac[0] as u32;
    let b1 = mac[1] as u32;
    let b2 = mac[2] as u32;
    let b3 = mac[3] as u32;
    let b4 = mac[4] as u32;
    let b5 = mac[5] as u32;
    assert(b1 << 8 == b1 * 0x100) by (bit_vector)
        requires
            b1 < 0x100,
    ;
    assert(b2 << 16 == b2 * 0x1_0000) by (bit_vector)
        requires
            b2 < 0x100,
    ;
    assert(b3 << 24 == b3 * 0x100_0000) by (bit_vector)
        requires
            b3 < 0x100,
    ;
    assert(b5 << 8 == b5 * 0x100) by (bit_vector)
        requires
            b5 < 0x100,
    ;
    let bottom: u32 = (b3 << 24) + (b2 << 16) + (b1 << 8) + b0;
    let top: u32 = (b5 << 8) + b4;
    (bottom, top)
}

/// Whether a PHY answered at an address: its control register reads
/// neither all ones nor all zeros.
pub fn phy_answers(control: u16) -> (r: bool)
    ensures
        r == (control != 0xFFFF && control != 0),
{
    control != 0xFFFF && control != 0
}

/// The first PHY address among `0..32` whose control register answered,
/// given what each address's control register reads.
pub fn find_phy(controls: &[u16]) -> (r: Result<u32, GEMError>)
    requires
        controls@.len() == 32,
    ensures
        r matches Ok(a) ==> a < 32 && phy_answers_spec(controls@[a as int]) && forall|i: int|
            0 <= i < a ==> !phy_answers_spec(#[trigger] controls@[i]),
        r is Err ==> r == Err::<u32, GEMError>(GEMError::NoPhyFound) && forall|i: int|
            0 <= i < 32 ==> !phy_answers_spec(#[trigger] controls@[i]),
{
    let mut i: u32 = 0;
    while i < 32
        invariant
            0 <= i <= 32,
            controls@.len() == 32,
            forall|j: int| 0 <= j < i ==> !phy_answers_spec(#[trigger] controls@[j]),
        decreases 32 - i,
    {
        if phy_answers(controls[i as usize]) {
            return Ok(i);
        }
        i = i + 1;
    }
    Err(GEMError::NoPhyFound)
}

/// Whether a PHY answered, given its control register.
pub open spec fn phy_answers_spec(control: u16) -> bool {
    control != 0xFFFF && control != 0
}

/// The value the receive buffer size field of the DMA configuration holds.
pub fn dma_rx_buffer_size() -> (r: u32)
    ensures
        r == RX_BUF_LEN / RX_BUFFER_MULTIPLE,
{
    RX_BUF_LEN / RX_BUFFER_MULTIPLE
}

/// The first word of receive descriptor `index` for a buffer at physical
/// address `buffer`: the address, with the wrap flag on the last
/// descriptor. Fails where the address is not 4-byte aligned.
pub fn rx_descriptor_word0(buffer: u64, index: u32) -> (r: Result<u32, GEMError>)
    requires
        buffer <= u32::MAX,
        index < RX_BUF_NUM,
    ensures
        buffer % 4 != 0 ==> r == Err::<u32, GEMError>(GEMError::Unknown),
        buffer % 4 == 0 ==> r == Ok::<u32, GEMError>(
            if index == RX_BUF_NUM - 1 {
                (buffer + RX_DESC_WRAP) as u32
            } else {
                buffer as u32
            },
        ),
{
    assert(buffer & 3 == buffer % 4) by (bit_vector);
    if buffer & 0b11 != 0 {
        return Err(GEMError::Unknown);
    }
    let mut word0 = buffer as u32;
    if index == RX_BUF_NUM - 1 {
        assert(word0 % 4 == 0 ==> word0 | 2 == word0 + 2) by (bit_vector);
        word0 = word0 | RX_DESC_WRAP;
    }
    Ok(word0)
}

/// The two words of transmit descriptor `index` for a buffer at physical
/// address `buffer`: the address, then the used flag, with the wrap flag on
/// the last descriptor.
pub fn tx_descriptor_words(buffer: u64, index: u32) -> (r: (u32, u32))
    requires
        buffer <= u32::MAX,
        index < TX_BUF_NUM,
    ensures
        r.0 == buffer,
        r.1 == (if index == TX_BUF_NUM - 1 {
            TX_DESC_USED | TX_DESC_WRAP
        } else {
            TX_DESC_USED
        }),
{
    let mut word1 = TX_DESC_USED;
    if index == TX_BUF_NUM - 1 {
        word1 = word1 | TX_DESC_WRAP;
    }
    (buffer as u32, word1)
}

/// Whether the controller filled the buffer of a receive descriptor.
pub open spec fn rx_filled(word0: u32) -> bool {
    word0 & RX_DESC_OWNED != 0
}

/// The descriptor `k` places after position `counter` in the receive list.
pub open spec fn rx_slot(counter: u32, k: int) -> int {
    (k + counter) % RX_BUF_NUM as int
}

/// How many places descriptor `index` lies after position `counter` in the
/// receive list.
pub open spec fn rx_distance(counter: u32, index: u32) -> int {
    (index + RX_BUF_NUM - counter) % RX_BUF_NUM as int
}

/// The index of the next received frame: the first receive descriptor,
/// from `rx_counter` on and around the list, that the controller filled.
pub fn next_rx_index(word0s: &[u32], rx_counter: u32) -> (r: Option<u32>)
    requires
        word0s@.len() == RX_BUF_NUM,
        rx_counter < RX_BUF_NUM,
    ensures
        r matches Some(index) ==> {
            &&& index < RX_BUF_NUM
            &&& rx_filled(word0s@[index as int])
            &&& forall|j: int|
                0 <= j < rx_distance(rx_counter, index) ==> !rx_filled(
                    word0s@[#[trigger] rx_slot(rx_counter, j)],
                )
        },
        r is None ==> forall|i: int| 0 <= i < RX_BUF_NUM ==> !rx_filled(#[trigger] word0s@[i]),
{
    let mut i: u32 = 0;
    while i < RX_BUF_NUM
        invariant
            0 <= i <= RX_BUF_NUM,
            word0s@.len() == RX_BUF_NUM,
            rx_counter < RX_BUF_NUM,
            forall|j: int| 0 <= j < i ==> !rx_filled(word0s@[#[trigger] rx_slot(rx_counter, j)]),
        decreases RX_BUF_NUM - i,
    {
        let index = (i + rx_counter) % RX_BUF_NUM;
        if word0s[index as usize] & RX_DESC_OWNED != 0 {
            proof {
                if i + rx_counter < RX_BUF_NUM {
                    assert(index == i + rx_counter);
                    assert((i + RX_BUF_NUM) % RX_BUF_NUM as int == i);
                } else {
                    assert(index == i + rx_counter - RX_BUF_NUM);
                    assert(rx_distance(rx_counter, index) == i);
                }
            }
            return Some(index);
        }
        assert(rx_slot(rx_counter, i as int) == index);
        i = i + 1;
    }
    assert forall|m: int| 0 <= m < RX_BUF_NUM implies !rx_filled(#[trigger] word0s@[m]) by {
        let j = if m >= rx_counter {
            m - rx_counter
        } else {
            m + RX_BUF_NUM - rx_counter
        };
        assert(rx_slot(rx_counter, j) == m);
    }
    None
}

/// Whether the controller is done with the buffer a transmit descriptor
/// with second word `word1` describes.
pub open spec fn tx_free(word1: u32) -> bool {
    word1 & TX_DESC_USED != 0
}

/// The descriptor `k` places after position `counter` in the transmit list.
pub open spec fn tx_slot(counter: u32, k: int) -> int {
    (k + counter) % TX_BUF_NUM as int
}

/// How many places descriptor `index` lies after position `counter` in the
/// transmit list.
pub open spec fn tx_distance(counter: u32, index: u32) -> int {
    (index + TX_BUF_NUM - counter) % TX_BUF_NUM as int
}

/// The index of the buffer the next frame is sent from: the first transmit
/// descriptor, from `tx_counter` on and around the list, that the
/// controller is done with.
pub fn next_tx_index(word1s: &[u32], tx_counter: u32) -> (r: Option<u32>)
    requires
        word1s@.len() == TX_BUF_NUM,
        tx_counter < TX_BUF_NUM,
    ensures
        r matches Some(index) ==> {
            &&& index < TX_BUF_NUM
            &&& tx_free(word1s@[index as int])
            &&& forall|j: int|
                0 <= j < tx_distance(tx_counter, index) ==> !tx_free(
                    word1s@[#[trigger] tx_slot(tx_counter, j)],
                )
        },
        r is None ==> forall|i: int| 0 <= i < TX_BUF_NUM ==> !tx_free(#[trigger] word1s@[i]),
{
    let mut i: u32 = 0;
    while i < TX_BUF_NUM
        invariant
            0 <= i <= TX_BUF_NUM,
            word1s@.len() == TX_BUF_NUM,
            tx_counter < TX_BUF_NUM,
            forall|j: int| 0 <= j < i ==> !tx_free(word1s@[#[trigger] tx_slot(tx_counter, j)]),
        decreases TX_BUF_NUM - i,
    {
        let index = (i + tx_counter) % TX_BUF_NUM;
        if word1s[index as usize] & TX_DESC_USED != 0 {
            proof {
                if i + tx_counter < TX_BUF_NUM {
                    assert(index == i + tx_counter);
                    assert((i + TX_BUF_NUM) % TX_BUF_NUM as int == i);
                } else {
                    assert(index == i + tx_counter - TX_BUF_NUM);
                    assert(tx_distance(tx_counter, index) == i);
                }
            }
            return Some(index);
        }
        assert(tx_slot(tx_counter, i as int) == index);
        i = i + 1;
    }
    assert forall|m: int| 0 <= m < TX_BUF_NUM implies !tx_free(#[trigger] word1s@[m]) by {
        let j = if m >= tx_counter {
            m - tx_counter
        } else {
            m + TX_BUF_NUM - tx_counter
        };
        assert(tx_slot(tx_counter, j) == m);
    }
    None
}

/// The length of the frame a filled receive descriptor describes.
pub fn rx_frame_length(word1: u32) -> (r: u32)
    ensures
        r == word1 & 0x1FFF,
        r < 0x2000,
{
    assert(word1 & 0x1FFF < 0x2000) by (bit_vector);
    word1 & 0x1FFF
}

/// The first word of a receive descriptor once its buffer was consumed:
/// ownership goes back to the controller, the rest stays.
pub fn rx_descriptor_released(word0: u32) -> (r: u32)
    ensures
        r == word0 & 0xFFFF_FFFE,
        !rx_filled(r),
{
    assert((word0 & 0xFFFF_FFFE) & 1 == 0) by (bit_vector);
    word0 & 0xFFFF_FFFE
}

/// The position after `index` in a list of `num` descriptors.
pub fn next_counter(index: u32, num: u32) -> (r: u32)
    requires
        index < num,
    ensures
        r == (index + 1) % num as int,
        r < num,
{
    (index + 1) % num
}

/// The second word of a transmit descriptor once a frame of `len` bytes is
/// in its buffer: a single-buffer frame of that length, the wrap flag kept.
pub fn tx_frame_word1(word1: u32, len: u32) -> (r: u32)
    requires
        len <= TX_BUF_LEN,
    ensures
        r == (word1 & TX_DESC_WRAP) | TX_DESC_LAST | len,
        r & TX_DESC_USED == 0,
{
    assert(len <= 1600 ==> ((word1 & 0x4000_0000) | 0x8000 | len) & 0x8000_0000 == 0) by (bit_vector);
    (word1 & TX_DESC_WRAP) | TX_DESC_LAST | len
}

} // verus!
