//! The RealTek RTL8139 driver's receive ring and transmit buffer bookkeeping.

use vstd::prelude::*;

use crate::drivers::pci::{Bar, MAX_BARS};

verus! {

/// Size of the receive ring buffer.
pub const RX_BUF_LEN: usize = 8192;
/// Size of each transmit buffer.
pub const TX_BUF_LEN: usize = 4096;
/// Number of transmit buffers.
pub const NO_TX_BUFFERS: usize = 4;

pub const CR_BUFE: u8 = 0x01;
/// Command register: the chip is resetting.
pub const CR_RST: u8 = 0x10;
/// The value the transmit configuration register reads as when no chip
/// answers.
pub const TCR_ABSENT: u32 = 0x00ff_ffff;
/// How many times the command register is read while waiting for a reset.
pub const RESET_POLLS: u16 = 10000;
pub const ISR_ROK: u16 = 0x01;
pub const ISR_RER: u16 = 0x02;
pub const ISR_TOK: u16 = 0x04;
pub const ISR_TER: u16 = 0x08;
pub const ISR_RXOVW: u16 = 0x10;
pub const TSD_TABT: u32 = 0x4000_0000;
pub const TSD_OWC: u32 = 0x2000_0000;
pub const TSD_TUN: u32 = 0x4000;
pub const TSD_TOK: u32 = 0x8000;
/// Interrupts enabled while the driver is not polled.
pub const INT_MASK: u16 = 0x1f;
/// Interrupts enabled while the driver is polled: all but receive OK.
pub const INT_MASK_NO_ROK: u16 = 0x1e;

/// Errors of the RTL8139 driver.
#[derive(Clone, Copy, Debug, PartialEq, Eq)]
pub enum RTL8139Error {
    InitFailed,
    ResetFailed,
    Unknown,
}

/// The 16-bit little-endian value at `pos` in `buf`.
pub open spec fn le16_at(buf: Seq<u8>, pos: int) -> int {
    buf[pos] + buf[pos + 1] * 256
}

/// `v` rounded up to a multiple of 4.
pub open spec fn align4(v: int) -> int {
    (v + 3) / 4 * 4
}

/// Rounding up to a multiple of 4 moves by less than 4 and lands on a
/// multiple of 4.
pub proof fn lemma_align4(v: int)
    requires
        v >= 0,
    ensures
        v <= align4(v) < v + 4,
        align4(v) % 4 == 0,
{
    assert(align4(v) % 4 == 0 && v <= align4(v) < v + 4) by (nonlinear_arith)
        requires
            v >= 0,
            align4(v) == (v + 3) / 4 * 4,
    ;
}

/// Where the driver reads from the receive ring.
pub struct RxFields {
    /// Position of the next packet header in the ring buffer.
    pub rxpos: usize,
    pub rx_in_use: bool,
}

impl RxFields {
    /// The 16-bit little-endian value at the read position of the ring `buf`.
    pub fn rx_peek_u16(&self, buf: &[u8]) -> (r: u16)
        requires
            buf@.len() == RX_BUF_LEN,
            self.rxpos + 2 <= RX_BUF_LEN,
        ensures
            r == le16_at(buf@, self.rxpos as int),
    {
        let lo = buf[self.rxpos];
        let hi = buf[self.rxpos + 1];
        (lo as u16) + (hi as u16) * 256
    }

    /// Moves the read position on by `count` bytes, around the ring's end.
    pub fn advance_rxpos(&mut self, count: usize)
        requires
            old(self).rxpos + count <= usize::MAX,
        ensures
            final(self).rxpos == (old(self).rxpos + count) % (RX_BUF_LEN as int),
            final(self).rx_in_use == old(self).rx_in_use,
    {
        self.rxpos = self.rxpos + count;
        self.rxpos = self.rxpos % RX_BUF_LEN;
    }

    /// Reads the frame of the packet at the read position: skips the
    /// packet's status word, takes its length (the CRC excluded) and copies
    /// the frame from after the length word, around the ring's end.
    pub fn receive_frame(&mut self, buf: &[u8]) -> (frame: Vec<u8>)
        requires
            buf@.len() == RX_BUF_LEN,
            old(self).rxpos < RX_BUF_LEN,
            old(self).rxpos % 4 == 0,
            le16_at(buf@, (old(self).rxpos + 2) % (RX_BUF_LEN as int)) >= 4,
            le16_at(buf@, (old(self).rxpos + 2) % (RX_BUF_LEN as int)) - 4 <= RX_BUF_LEN,
        ensures
            final(self).rxpos == (old(self).rxpos + 2) % (RX_BUF_LEN as int),
            final(self).rx_in_use == old(self).rx_in_use,
            ({
                let len = le16_at(buf@, final(self).rxpos as int) - 4;
                let pos = (final(self).rxpos + 2) % (RX_BUF_LEN as int);
                &&& frame@.len() == len
                &&& forall|i: int|
                    0 <= i < len ==> #[trigger] frame@[i] == buf@[(pos + i) % (RX_BUF_LEN as int)]
            }),
    {
        self.advance_rxpos(2);
        assert(self.rxpos + 2 <= RX_BUF_LEN);
        let length = self.rx_peek_u16(buf) - 4;
        let pos = (self.rxpos + 2) % RX_BUF_LEN;
        let len = length as usize;
        let mut frame: Vec<u8> = Vec::new();
        let mut i: usize = 0;
        while i < len
            invariant
                buf@.len() == RX_BUF_LEN,
                pos < RX_BUF_LEN,
                len <= RX_BUF_LEN,
                0 <= i <= len,
                frame@.len() == i,
                forall|j: int|
                    0 <= j < i ==> #[trigger] frame@[j] == buf@[(pos + j) % (RX_BUF_LEN as int)],
            decreases len - i,
        {
            let k = if pos + i < RX_BUF_LEN {
                pos + i
            } else {
                pos + i - RX_BUF_LEN
            };
            proof {
                if pos + i < RX_BUF_LEN {
                    vstd::arithmetic::div_mod::lemma_small_mod((pos + i) as nat, RX_BUF_LEN as nat);
                } else {
                    vstd::arithmetic::div_mod::lemma_mod_sub_multiples_vanish(
                        (pos + i - RX_BUF_LEN) as int,
                        RX_BUF_LEN as int,
                    );
                    vstd::arithmetic::div_mod::lemma_small_mod(
                        (pos + i - RX_BUF_LEN) as nat,
                        RX_BUF_LEN as nat,
                    );
                }
            }
            frame.push(buf[k]);
            i = i + 1;
        }
        frame
    }

    /// Hands the packet at the read position back to the device: moves the
    /// read position past the length word and the packet, up to the next
    /// multiple of 4, and returns the value for the current-address-of-read
    /// register, 16 bytes behind the read position.
    pub fn consume_current_buffer(&mut self, buf: &[u8]) -> (capr: u16)
        requires
            buf@.len() == RX_BUF_LEN,
            old(self).rxpos + 2 <= RX_BUF_LEN,
        ensures
            ({
                let length = le16_at(buf@, old(self).rxpos as int);
                let p = (old(self).rxpos + length + 2) % (RX_BUF_LEN as int);
                let q = align4(p) % (RX_BUF_LEN as int);
                &&& final(self).rxpos == q
                &&& capr == (if q >= 0x10 {
                    q - 0x10
                } else {
                    RX_BUF_LEN - (0x10 - q)
                })
            }),
            final(self).rxpos < RX_BUF_LEN,
            final(self).rxpos % 4 == 0,
            final(self).rx_in_use == old(self).rx_in_use,
            ({
                let p = (old(self).rxpos + le16_at(buf@, old(self).rxpos as int) + 2) % (
                RX_BUF_LEN as int);
                ||| p <= final(self).rxpos < p + 4
                ||| final(self).rxpos == 0 && RX_BUF_LEN - 4 < p
            }),
    {
        let length = self.rx_peek_u16(buf);
        self.advance_rxpos(length as usize + 2);
        let p = self.rxpos;
        proof {
            let q: usize = (p + 3) as usize;
            assert(q & !3usize == q / 4 * 4) by (bit_vector)
                requires
                    q < 8200,
            ;
        }
        self.rxpos = ((self.rxpos + 3) & !0x3) % RX_BUF_LEN;
        proof {
            lemma_align4(p as int);
            let a = (p + 3) / 4 * 4;
            assert(a % 4 == 0) by (nonlinear_arith)
                requires
                    a == (p + 3) / 4 * 4,
            ;
            assert(a <= RX_BUF_LEN);
            if a == RX_BUF_LEN {
                vstd::arithmetic::div_mod::lemma_mod_self_0(RX_BUF_LEN as int);
            } else {
                vstd::arithmetic::div_mod::lemma_small_mod(a as nat, RX_BUF_LEN as nat);
            }
        }
        if self.rxpos >= 0x10 {
            (self.rxpos - 0x10) as u16
        } else {
            (RX_BUF_LEN - (0x10 - self.rxpos)) as u16
        }
    }
}

/// Whether a packet is waiting: the command register `cmd` says the buffer
/// is not empty and the packet's header `header` has the receive-OK bit.
pub fn has_packet(cmd: u8, header: u16) -> (r: bool)
    ensures
        r == (cmd & CR_BUFE != CR_BUFE && header & ISR_ROK == ISR_ROK),
{
    if (cmd & CR_BUFE) != CR_BUFE {
        if header & ISR_ROK == ISR_ROK {
            return true;
        }
    }
    false
}

/// The bookkeeping of the four transmit buffers.
pub struct TxFields {
    pub tx_in_use: [bool; 4],
    pub tx_counter: usize,
    pub remaining_bufs: usize,
}

impl TxFields {
    /// Whether a transmit token can be handed out.
    pub fn can_transmit(&self) -> (r: bool)
        ensures
            r == (self.remaining_bufs > 0),
    {
        self.remaining_bufs > 0
    }

    /// Takes the next transmit buffer, in turn, for a frame of `len` bytes and
    /// returns its number; the frame goes to offset `id * TX_BUF_LEN`.
    pub fn take_buffer(&mut self, len: usize) -> (id: usize)
        requires
            !old(self).tx_in_use[(old(self).tx_counter % 4) as int],
            len <= TX_BUF_LEN,
            old(self).tx_counter < usize::MAX,
        ensures
            id == old(self).tx_counter % 4,
            final(self).tx_in_use@ == old(self).tx_in_use@.update(id as int, true),
            final(self).tx_counter == old(self).tx_counter + 1,
            final(self).remaining_bufs == old(self).remaining_bufs,
    {
        let id = self.tx_counter % NO_TX_BUFFERS;
        self.tx_in_use[id] = true;
        self.tx_counter = self.tx_counter + 1;
        id
    }

    /// A transmit token dropped unused gives its buffer back.
    pub fn token_dropped(&mut self)
        requires
            old(self).remaining_bufs < usize::MAX,
        ensures
            final(self).remaining_bufs == old(self).remaining_bufs + 1,
            final(self).tx_in_use == old(self).tx_in_use,
            final(self).tx_counter == old(self).tx_counter,
    {
        self.remaining_bufs = self.remaining_bufs + 1;
    }

    /// Handles the transmit status `statuses[i]` of each buffer in use: a
    /// buffer whose transmission went through is free again; one with a
    /// major error stays in use.
    pub fn tx_handler(&mut self, statuses: [u32; 4])
        requires
            old(self).remaining_bufs + 4 <= usize::MAX,
        ensures
            final(self).tx_counter == old(self).tx_counter,
            forall|i: int|
                0 <= i < 4 ==> #[trigger] final(self).tx_in_use[i] == (old(self).tx_in_use[i] && !(
                statuses[i] & (TSD_TABT | TSD_OWC) == 0 && statuses[i] & TSD_TOK == TSD_TOK)),
            final(self).remaining_bufs == old(self).remaining_bufs + Self::freed_count(
                old(self).tx_in_use@,
                statuses@,
                4,
            ),
    {
        let mut i: usize = 0;
        while i < NO_TX_BUFFERS
            invariant
                0 <= i <= 4,
                self.tx_counter == old(self).tx_counter,
                old(self).remaining_bufs + 4 <= usize::MAX,
                self.remaining_bufs == old(self).remaining_bufs + Self::freed_count(
                    old(self).tx_in_use@,
                    statuses@,
                    i as int,
                ),
                Self::freed_count(old(self).tx_in_use@, statuses@, i as int) <= i,
                forall|j: int|
                    0 <= j < i ==> #[trigger] self.tx_in_use[j] == (old(self).tx_in_use[j] && !(
                    statuses[j] & (TSD_TABT | TSD_OWC) == 0 && statuses[j] & TSD_TOK == TSD_TOK)),
                forall|j: int| i <= j < 4 ==> #[trigger] self.tx_in_use[j] == old(self).tx_in_use[j],
            decreases 4 - i,
        {
            if self.tx_in_use[i] {
                let txstatus = statuses[i];
                if (txstatus & (TSD_TABT | TSD_OWC)) == 0 && (txstatus & TSD_TOK) == TSD_TOK {
                    self.tx_in_use[i] = false;
                    self.remaining_bufs = self.remaining_bufs + 1;
                }
            }
            i = i + 1;
        }
    }

    /// How many of the first `n` buffers a transmit status handling frees.
    pub open spec fn freed_count(in_use: Seq<bool>, statuses: Seq<u32>, n: int) -> int
        decreases n,
    {
        if n <= 0 {
            0
        } else {
            Self::freed_count(in_use, statuses, n - 1) + if in_use[n - 1] && statuses[n - 1] & (
            TSD_TABT | TSD_OWC) == 0 && statuses[n - 1] & TSD_TOK == TSD_TOK {
                1int
            } else {
                0int
            }
        }
    }
}

/// The interrupt causes the driver acknowledges out of `isr`.
pub fn acknowledged_interrupts(isr: u16) -> (r: u16)
    ensures
        r == isr & (ISR_RXOVW | ISR_TER | ISR_RER | ISR_TOK | ISR_ROK),
{
    isr & (ISR_RXOVW | ISR_TER | ISR_RER | ISR_TOK | ISR_ROK)
}

/// The interrupt mask for polling mode `polling`.
pub fn interrupt_mask(polling: bool) -> (r: u16)
    ensures
        r == (if polling {
            INT_MASK_NO_ROK
        } else {
            INT_MASK
        }),
{
    if polling {
        INT_MASK_NO_ROK
    } else {
        INT_MASK
    }
}

/// The number of frames smoltcp may hand over in one go with MTU `mtu`.
pub fn max_burst_size(mtu: u16) -> (r: usize)
    requires
        mtu > 0,
    ensures
        r == (if NO_TX_BUFFERS <= (RX_BUF_LEN as int) / (mtu as int) {
            NO_TX_BUFFERS as int
        } else {
            (RX_BUF_LEN as int) / (mtu as int)
        }),
{
    let b = RX_BUF_LEN / (mtu as usize);
    if NO_TX_BUFFERS <= b {
        NO_TX_BUFFERS
    } else {
        b
    }
}

/// Whether a base address register is a 32-bit memory range.
pub open spec fn is_memory32(bar: Option<Bar>) -> bool {
    bar matches Some(Bar::Memory32 { .. })
}

/// The slot of the base address register the controller's registers are
/// mapped through: the last 32-bit memory range among the device's
/// registers; `None` when there is none.
pub fn rtl8139_bar(bars: &[Option<Bar>]) -> (r: Option<u8>)
    requires
        bars@.len() == MAX_BARS,
    ensures
        r matches Some(i) ==> i < MAX_BARS && is_memory32(bars@[i as int]) && forall|j: int|
            i < j < MAX_BARS ==> !is_memory32(#[trigger] bars@[j]),
        r is None ==> forall|j: int| 0 <= j < MAX_BARS ==> !is_memory32(#[trigger] bars@[j]),
{
    let mut found: Option<u8> = None;
    let mut i: u8 = 0;
    while i < MAX_BARS
        invariant
            bars@.len() == MAX_BARS,
            i <= MAX_BARS,
            found matches Some(f) ==> f < i && is_memory32(bars@[f as int]) && forall|j: int|
                f < j < i ==> !is_memory32(#[trigger] bars@[j]),
            found is None ==> forall|j: int| 0 <= j < i ==> !is_memory32(#[trigger] bars@[j]),
        decreases MAX_BARS - i,
    {
        match bars[i as usize] {
            Some(Bar::Memory32 { .. }) => {
                found = Some(i);
            },
            _ => {},
        }
        i += 1;
    }
    found
}

/// Whether the chip answers: its transmit configuration register does not
/// read as [`TCR_ABSENT`].
pub fn check_tcr(tcr: u32) -> (r: Result<(), RTL8139Error>)
    ensures
        r is Err <==> tcr == TCR_ABSENT,
        r matches Err(e) ==> e == RTL8139Error::InitFailed,
{
    if tcr == TCR_ABSENT {
        Err(RTL8139Error::InitFailed)
    } else {
        Ok(())
    }
}

/// What waiting for a reset does after reading the command register.
#[derive(Clone, Copy, Debug, PartialEq, Eq)]
pub enum ResetStep {
    /// The reset is over.
    Done,
    /// Read the command register again, with this many reads left.
    Retry(u16),
    /// The reset did not finish in time.
    Failed(RTL8139Error),
}

/// One step of waiting for a reset, with the command register reading
/// `cr` and `left` reads left: while the reset bit is set and reads are
/// left, read again; once no read is left the reset failed; otherwise it is
/// over.
pub fn reset_step(cr: u8, left: u16) -> (r: ResetStep)
    ensures
        r == (if cr & CR_RST == CR_RST && left > 0 {
            ResetStep::Retry((left - 1) as u16)
        } else if left == 0 {
            ResetStep::Failed(RTL8139Error::ResetFailed)
        } else {
            ResetStep::Done
        }),
{
    if cr & CR_RST == CR_RST && left > 0 {
        ResetStep::Retry(left - 1)
    } else if left == 0 {
        ResetStep::Failed(RTL8139Error::ResetFailed)
    } else {
        ResetStep::Done
    }
}

} // verus!
