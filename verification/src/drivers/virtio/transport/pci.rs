//! virtio-pci: capabilities, BARs and notifications.

use vstd::prelude::*;

use super::{notification_vqn, InterruptCapability, NotifWrite, UniCapsColl};
use crate::drivers::pci::PciError;
use crate::drivers::virtio::VirtioError;

verus! {

/// The type of a virtio PCI capability.
#[derive(Clone, Copy, Debug, PartialEq, Eq, Structural)]
pub enum CapCfgType {
    Common,
    Notify,
    Isr,
    Device,
    Pci,
    SharedMemory,
    Vendor,
}

/// The contents of a virtio PCI capability that locate a configuration
/// structure inside a BAR.
#[derive(Clone, Copy, Debug, PartialEq, Eq)]
pub struct CapData {
    pub cfg_type: CapCfgType,
    pub bar: u8,
    pub id: u8,
    pub offset: u64,
    pub length: u64,
    pub notify_off_multiplier: Option<u32>,
}

/// The virtual address and length of the memory a PCI device's BAR has been
/// mapped to.
#[derive(Clone, Copy, Debug, PartialEq, Eq)]
pub struct PciBar {
    mem_addr: u64,
    length: u64,
}

impl PciBar {
    pub closed spec fn spec_mem_addr(&self) -> u64 {
        self.mem_addr
    }

    pub closed spec fn spec_length(&self) -> u64 {
        self.length
    }

    pub fn new(mem_addr: u64, length: u64) -> (r: Self)
        ensures
            r.spec_mem_addr() == mem_addr,
            r.spec_length() == length,
    {
        PciBar { mem_addr, length }
    }
}

/// A virtio PCI capability together with the BAR it points into.
#[derive(Clone, Copy, Debug, PartialEq, Eq)]
pub struct PciCap {
    bar: PciBar,
    cap: CapData,
}

/// Why a capability's configuration structure cannot be mapped.
#[derive(Clone, Copy, Debug, PartialEq, Eq)]
pub enum CapCfgError {
    /// Wrong capability config id, mapping not possible.
    WrongCfgType,
    /// Structure too large to fit into PCI capability.
    StructTooLarge,
}

impl PciCap {
    /// The structure the capability describes lies inside its BAR.
    #[verifier::type_invariant]
    spec fn inside_bar(self) -> bool {
        self.cap.offset + self.cap.length <= self.bar.length
    }

    pub closed spec fn spec_bar(&self) -> PciBar {
        self.bar
    }

    pub closed spec fn spec_cap(&self) -> CapData {
        self.cap
    }

    /// The capability, if the structure it describes lies inside the BAR.
    pub fn new(bar: PciBar, cap: CapData) -> (r: Option<Self>)
        requires
            cap.length + cap.offset <= u64::MAX,
        ensures
            r is Some <==> bar.spec_length() >= cap.length + cap.offset,
            r matches Some(c) ==> c.spec_bar() == bar && c.spec_cap() == cap,
    {
        if bar.length >= cap.length + cap.offset {
            Some(PciCap { bar, cap })
        } else {
            None
        }
    }

    /// The offset of the structure in the BAR; the structure, `len()` bytes
    /// from there, lies inside the BAR.
    pub fn offset(&self) -> (r: u64)
        ensures
            r == self.spec_cap().offset,
            r + self.spec_cap().length <= self.spec_bar().spec_length(),
    {
        proof {
            use_type_invariant(self);
        }
        self.cap.offset
    }

    /// The length of the structure; it fits in the BAR past `offset()`.
    pub fn len(&self) -> (r: u64)
        ensures
            r == self.spec_cap().length,
            self.spec_cap().offset + r <= self.spec_bar().spec_length(),
    {
        proof {
            use_type_invariant(self);
        }
        self.cap.length
    }

    pub fn bar_addr(&self) -> (r: u64)
        ensures
            r == self.spec_bar().spec_mem_addr(),
    {
        self.bar.mem_addr
    }

    /// The address of the configuration structure of type `cfg_type` and
    /// size `min_size` the capability describes.
    pub fn map_cap_cfg(&self, cfg_type: CapCfgType, min_size: usize) -> (r: Result<u64, CapCfgError>)
        requires
            self.spec_cap().length <= usize::MAX,
            self.spec_bar().spec_mem_addr() + self.spec_cap().offset <= u64::MAX,
        ensures
            self.spec_cap().cfg_type != cfg_type ==> r == Err::<u64, CapCfgError>(
                CapCfgError::WrongCfgType,
            ),
            self.spec_cap().cfg_type == cfg_type && self.spec_cap().length < min_size ==> r == Err::<
                u64,
                CapCfgError,
            >(CapCfgError::StructTooLarge),
            self.spec_cap().cfg_type == cfg_type && self.spec_cap().length >= min_size ==> r == Ok::<
                u64,
                CapCfgError,
            >((self.spec_bar().spec_mem_addr() + self.spec_cap().offset) as u64),
    {
        if self.cap.cfg_type != cfg_type {
            return Err(CapCfgError::WrongCfgType);
        }
        if (self.len() as usize) < min_size {
            return Err(CapCfgError::StructTooLarge);
        }
        Ok(self.bar_addr() + self.offset())
    }
}

/// Where the notification addresses of the virtqueues lie.
pub struct NotifCfg {
    /// Start address from which the notification addresses are computed.
    base_addr: u64,
    notify_off_multiplier: u32,
    /// The size of the notification space, starting from `base_addr`.
    length: u64,
}

impl NotifCfg {
    pub closed spec fn spec_base_addr(&self) -> u64 {
        self.base_addr
    }

    pub closed spec fn spec_multiplier(&self) -> u32 {
        self.notify_off_multiplier
    }

    pub closed spec fn spec_length(&self) -> u64 {
        self.length
    }

    /// The notification configuration a notification capability describes,
    /// if it carries a notification offset multiplier.
    pub fn new(cap: &PciCap) -> (r: Option<Self>)
        requires
            cap.spec_bar().spec_mem_addr() + cap.spec_cap().offset <= u64::MAX,
        ensures
            cap.spec_cap().notify_off_multiplier is None ==> r is None,
            cap.spec_cap().notify_off_multiplier matches Some(m) ==> (r matches Some(n) && {
                &&& n.spec_base_addr() == cap.spec_bar().spec_mem_addr() + cap.spec_cap().offset
                &&& n.spec_multiplier() == m
                &&& n.spec_length() == cap.spec_cap().length
            }),
    {
        let notify_off_multiplier = match cap.cap.notify_off_multiplier {
            Some(m) => m,
            None => return None,
        };
        let base_addr = cap.bar.mem_addr + cap.offset();
        Some(NotifCfg { base_addr, notify_off_multiplier, length: cap.len() })
    }

    /// The notification address of a queue whose notification offset is
    /// `queue_notify_off`.
    pub fn notification_location(&self, queue_notify_off: u16) -> (r: u64)
        requires
            queue_notify_off * self.spec_multiplier() <= u32::MAX,
            self.spec_base_addr() + queue_notify_off * self.spec_multiplier() <= u64::MAX,
        ensures
            r == self.spec_base_addr() + queue_notify_off * self.spec_multiplier(),
    {
        let addend = (queue_notify_off as u32) * self.notify_off_multiplier;
        self.base_addr + (addend as u64)
    }
}

/// Control structure to notify a device via the PCI bus, held by a virtqueue.
pub struct NotifCtrl {
    /// Indicates if VIRTIO_F_NOTIFICATION_DATA has been negotiated.
    f_notif_data: bool,
    /// Where to write notifications.
    notif_addr: u64,
}

impl NotifCtrl {
    pub closed spec fn spec_notif_data(&self) -> bool {
        self.f_notif_data
    }

    pub closed spec fn spec_addr(&self) -> u64 {
        self.notif_addr
    }

    /// A controller writing to `notif_addr`, with VIRTIO_F_NOTIFICATION_DATA off.
    pub fn new(notif_addr: u64) -> (r: Self)
        ensures
            !r.spec_notif_data(),
            r.spec_addr() == notif_addr,
    {
        NotifCtrl { f_notif_data: false, notif_addr }
    }

    /// Enables VIRTIO_F_NOTIFICATION_DATA.
    pub fn enable_notif_data(&mut self)
        ensures
            final(self).spec_notif_data(),
            final(self).spec_addr() == old(self).spec_addr(),
    {
        self.f_notif_data = true;
    }

    /// What to write to notify the device with `data`: the whole data once
    /// VIRTIO_F_NOTIFICATION_DATA is negotiated, the queue index alone before.
    pub fn notify_dev(&self, data: u32) -> (r: NotifWrite)
        ensures
            self.spec_notif_data() ==> r == NotifWrite::Data(data),
            !self.spec_notif_data() ==> r == NotifWrite::Vqn((data % 0x10000) as u16),
    {
        if self.f_notif_data {
            NotifWrite::Data(data)
        } else {
            NotifWrite::Vqn(notification_vqn(data))
        }
    }
}

/// The minimum length of a common configuration structure: the structure as
/// laid out in memory (64 bytes) less its two optional trailing fields.
pub const COMMON_CFG_MIN_SIZE: usize = 60;

/// The length of the ISR status structure.
pub const ISR_CFG_MIN_SIZE: usize = 1;

/// A capability found in a device's configuration space, as capability
/// selection reads it.
#[derive(Clone, Copy, Debug, PartialEq, Eq)]
pub enum FoundCap {
    /// A virtio capability, with the mapping of the BAR it points into
    /// where that BAR could be mapped.
    Vendor(CapData, Option<PciBar>),
    /// An MSI-X capability the platform can use, with the address its
    /// table was mapped to.
    MsiX(u64),
    /// Any other capability.
    Other,
}

/// The BAR and capability a found capability yields: a virtio capability
/// other than the PCI configuration access one, whose BAR is mapped and
/// whose structure lies inside that BAR.
pub open spec fn vendor_cap(c: FoundCap) -> Option<(PciBar, CapData)> {
    match c {
        FoundCap::Vendor(cap, Some(bar)) => {
            if cap.cfg_type != CapCfgType::Pci && bar.spec_length() >= cap.length + cap.offset {
                Some((bar, cap))
            } else {
                None
            }
        },
        _ => None,
    }
}

/// The address of the common configuration a found capability provides.
pub open spec fn common_cfg_of(c: FoundCap) -> Option<u64> {
    match vendor_cap(c) {
        Some((bar, cap)) => {
            if cap.cfg_type == CapCfgType::Common && cap.length >= COMMON_CFG_MIN_SIZE {
                Some((bar.spec_mem_addr() + cap.offset) as u64)
            } else {
                None
            }
        },
        None => None,
    }
}

/// The notification configuration (base address, offset multiplier and
/// length) a found capability provides.
pub open spec fn notif_cfg_of(c: FoundCap) -> Option<(u64, u32, u64)> {
    match vendor_cap(c) {
        Some((bar, cap)) => {
            if cap.cfg_type == CapCfgType::Notify && cap.notify_off_multiplier is Some {
                Some(
                    (
                        (bar.spec_mem_addr() + cap.offset) as u64,
                        cap.notify_off_multiplier->0,
                        cap.length,
                    ),
                )
            } else {
                None
            }
        },
        None => None,
    }
}

/// The address of the ISR status a found capability provides.
pub open spec fn isr_cfg_of(c: FoundCap) -> Option<u64> {
    match vendor_cap(c) {
        Some((bar, cap)) => {
            if cap.cfg_type == CapCfgType::Isr && cap.length >= ISR_CFG_MIN_SIZE {
                Some((bar.spec_mem_addr() + cap.offset) as u64)
            } else {
                None
            }
        },
        None => None,
    }
}

/// The address of the MSI-X table a found capability provides.
pub open spec fn msix_of(c: FoundCap) -> Option<u64> {
    match c {
        FoundCap::MsiX(addr) => Some(addr),
        _ => None,
    }
}

/// The device-specific configuration a found capability provides.
pub open spec fn device_cfg_of(c: FoundCap) -> Option<(PciBar, CapData)> {
    match vendor_cap(c) {
        Some((bar, cap)) => {
            if cap.cfg_type == CapCfgType::Device {
                Some((bar, cap))
            } else {
                None
            }
        },
        None => None,
    }
}

/// What `f` gives for the first capability of `s` it gives anything for.
pub open spec fn first_of<A>(s: Seq<FoundCap>, f: spec_fn(FoundCap) -> Option<A>) -> Option<A>
    decreases s.len(),
{
    if s.len() == 0 {
        None
    } else {
        match first_of(s.drop_last(), f) {
            Some(a) => Some(a),
            None => f(s.last()),
        }
    }
}

/// What `f` gives for the last capability of `s` it gives anything for.
pub open spec fn last_of<A>(s: Seq<FoundCap>, f: spec_fn(FoundCap) -> Option<A>) -> Option<A>
    decreases s.len(),
{
    if s.len() == 0 {
        None
    } else {
        match f(s.last()) {
            Some(a) => Some(a),
            None => last_of(s.drop_last(), f),
        }
    }
}

/// All that `f` gives for the capabilities of `s`, in order.
pub open spec fn all_of<A>(s: Seq<FoundCap>, f: spec_fn(FoundCap) -> Option<A>) -> Seq<A>
    decreases s.len(),
{
    if s.len() == 0 {
        Seq::empty()
    } else {
        all_of(s.drop_last(), f) + match f(s.last()) {
            Some(a) => seq![a],
            None => Seq::empty(),
        }
    }
}

/// How the device raises interrupts: through the last MSI-X table found,
/// which is preferred, else through the first usable ISR status.
pub open spec fn interrupt_cap_of(s: Seq<FoundCap>) -> Option<InterruptCapability> {
    match last_of(s, |c: FoundCap| msix_of(c)) {
        Some(addr) => Some(InterruptCapability::Msix(addr)),
        None => match first_of(s, |c: FoundCap| isr_cfg_of(c)) {
            Some(addr) => Some(InterruptCapability::IsrStatus(addr)),
            None => None,
        },
    }
}

/// The arithmetic on a found capability stays within its types.
pub open spec fn cap_in_range(c: FoundCap) -> bool {
    match c {
        FoundCap::Vendor(cap, bar) => {
            &&& cap.length + cap.offset <= u64::MAX
            &&& cap.length <= usize::MAX
            &&& bar matches Some(b) ==> b.spec_mem_addr() + cap.offset <= u64::MAX
        },
        _ => true,
    }
}

/// The view of a notification configuration: base address, offset
/// multiplier and length.
pub open spec fn notif_view(n: NotifCfg) -> (u64, u32, u64) {
    (n.spec_base_addr(), n.spec_multiplier(), n.spec_length())
}

/// The view of a capability: its BAR and its contents.
pub open spec fn pci_cap_view(p: PciCap) -> (PciBar, CapData) {
    (p.spec_bar(), p.spec_cap())
}

/// Why capability selection refuses device `device_id`, if it does: the
/// device has no capability list, or no usable common configuration, or no
/// usable notification configuration, or no way to raise interrupts.
pub open spec fn caps_error(device_id: u16, has_capability_list: bool, s: Seq<FoundCap>) -> Option<
    VirtioError,
> {
    if !has_capability_list {
        Some(VirtioError::FromPci(PciError::NoCapPtr(device_id)))
    } else if first_of(s, |c: FoundCap| common_cfg_of(c)) is None {
        Some(VirtioError::NoComCfg(device_id))
    } else if first_of(s, |c: FoundCap| notif_cfg_of(c)) is None {
        Some(VirtioError::NoNotifCfg(device_id))
    } else if interrupt_cap_of(s) is None {
        Some(VirtioError::NoIsrCfg(device_id))
    } else {
        None
    }
}

/// Chooses, from the capabilities found on device `device_id`, those the
/// driver works with: the first usable common configuration, the first
/// usable notification configuration, the interrupt mechanism (MSI-X over
/// the ISR status) and every device-specific configuration, in order.
/// A device without a capability list, or one that lacks any of the first
/// three, is refused.
pub fn map_caps(device_id: u16, has_capability_list: bool, caps: &Vec<FoundCap>) -> (r: Result<
    (UniCapsColl, Vec<PciCap>),
    VirtioError,
>)
    requires
        forall|i: int| 0 <= i < caps.len() ==> cap_in_range(#[trigger] caps@[i]),
    ensures
        r is Err <==> caps_error(device_id, has_capability_list, caps@) is Some,
        r matches Err(e) ==> caps_error(device_id, has_capability_list, caps@) == Some(e),
        r matches Ok((coll, devs)) ==> {
            &&& has_capability_list
            &&& first_of(caps@, |c: FoundCap| common_cfg_of(c)) == Some(coll.com_cfg)
            &&& first_of(caps@, |c: FoundCap| notif_cfg_of(c)) == Some(notif_view(coll.notif_cfg))
            &&& interrupt_cap_of(caps@) == Some(coll.int_cap)
            &&& devs@.map_values(|p: PciCap| pci_cap_view(p)) == all_of(
                caps@,
                |c: FoundCap| device_cfg_of(c),
            )
        },
{
    if !has_capability_list {
        return Err(VirtioError::FromPci(PciError::NoCapPtr(device_id)));
    }
    let ghost s = caps@;
    let ghost fc = |c: FoundCap| common_cfg_of(c);
    let ghost fn_ = |c: FoundCap| notif_cfg_of(c);
    let ghost fi = |c: FoundCap| isr_cfg_of(c);
    let ghost fm = |c: FoundCap| msix_of(c);
    let ghost fd = |c: FoundCap| device_cfg_of(c);
    let mut com_cfg: Option<u64> = None;
    let mut notif_cfg: Option<NotifCfg> = None;
    let mut isr_cfg: Option<u64> = None;
    let mut msix_table: Option<u64> = None;
    let mut dev_cfg_list: Vec<PciCap> = Vec::new();
    let mut i: usize = 0;
    while i < caps.len()
        invariant
            s == caps@,
            i <= caps.len(),
            forall|k: int| 0 <= k < caps.len() ==> cap_in_range(#[trigger] caps@[k]),
            fc == (|c: FoundCap| common_cfg_of(c)),
            fn_ == (|c: FoundCap| notif_cfg_of(c)),
            fi == (|c: FoundCap| isr_cfg_of(c)),
            fm == (|c: FoundCap| msix_of(c)),
            fd == (|c: FoundCap| device_cfg_of(c)),
            com_cfg == first_of(s.take(i as int), fc),
            notif_cfg matches Some(n) ==> first_of(s.take(i as int), fn_) == Some(notif_view(n)),
            notif_cfg is None ==> first_of(s.take(i as int), fn_) is None,
            msix_table == last_of(s.take(i as int), fm),
            msix_table is None ==> isr_cfg == first_of(s.take(i as int), fi),
            dev_cfg_list@.map_values(|p: PciCap| pci_cap_view(p)) == all_of(s.take(i as int), fd),
        decreases caps.len() - i,
    {
        let ghost t = s.take(i as int);
        let ghost t1 = s.take(i + 1);
        assert(t1.drop_last() == t);
        assert(t1.last() == s[i as int]);
        match caps[i] {
            FoundCap::Vendor(cap, Some(bar)) => {
                if cap.cfg_type != CapCfgType::Pci {
                    match PciCap::new(bar, cap) {
                        Some(pci_cap) => {
                            match cap.cfg_type {
                                CapCfgType::Common => {
                                    if com_cfg.is_none() {
                                        match pci_cap.map_cap_cfg(CapCfgType::Common, COMMON_CFG_MIN_SIZE) {
                                            Ok(addr) => {
                                                com_cfg = Some(addr);
                                            },
                                            Err(_) => {},
                                        }
                                    }
                                },
                                CapCfgType::Notify => {
                                    if notif_cfg.is_none() {
                                        notif_cfg = NotifCfg::new(&pci_cap);
                                    }
                                },
                                CapCfgType::Isr => {
                                    if isr_cfg.is_none() && msix_table.is_none() {
                                        match pci_cap.map_cap_cfg(CapCfgType::Isr, ISR_CFG_MIN_SIZE) {
                                            Ok(addr) => {
                                                isr_cfg = Some(addr);
                                            },
                                            Err(_) => {},
                                        }
                                    }
                                },
                                CapCfgType::Device => {
                                    dev_cfg_list.push(pci_cap);
                                },
                                _ => {},
                            }
                        },
                        None => {},
                    }
                }
            },
            FoundCap::MsiX(addr) => {
                msix_table = Some(addr);
            },
            _ => {},
        }
        i += 1;
    }
    proof {
        assert(s.take(caps.len() as int) == s);
    }
    let int_cap = match msix_table {
        Some(addr) => Some(InterruptCapability::Msix(addr)),
        None => match isr_cfg {
            Some(addr) => Some(InterruptCapability::IsrStatus(addr)),
            None => None,
        },
    };
    let com_cfg = match com_cfg {
        Some(c) => c,
        None => return Err(VirtioError::NoComCfg(device_id)),
    };
    let notif_cfg = match notif_cfg {
        Some(n) => n,
        None => return Err(VirtioError::NoNotifCfg(device_id)),
    };
    let int_cap = match int_cap {
        Some(c) => c,
        None => return Err(VirtioError::NoIsrCfg(device_id)),
    };
    Ok((UniCapsColl { com_cfg, notif_cfg, int_cap }, dev_cfg_list))
}

/// The interrupt lines `0..=last` without a handler among `used`, in
/// ascending order.
pub open spec fn free_lines(last: u8, used: Seq<u8>) -> Seq<u8> {
    lines_upto(last as int + 1, used)
}

/// The lines below `n` that `used` does not hold, in ascending order.
pub open spec fn lines_upto(n: int, used: Seq<u8>) -> Seq<u8>
    decreases n,
{
    if n <= 0 {
        Seq::empty()
    } else {
        lines_upto(n - 1, used) + if used.contains((n - 1) as u8) {
            Seq::empty()
        } else {
            seq![(n - 1) as u8]
        }
    }
}

/// All interrupt lines `0..=last`, in ascending order.
pub open spec fn all_lines(last: u8) -> Seq<u8> {
    Seq::new(last as nat + 1, |i: int| i as u8)
}

/// The first `queue_handlers + 1` lines, or all where there are fewer, of
/// the free lines of `0..=vector_max - 32` followed by all of them.
pub open spec fn msix_lines(used: Seq<u8>, vector_max: u8, queue_handlers: usize) -> Seq<u8> {
    let pool = free_lines((vector_max - 32) as u8, used) + all_lines((vector_max - 32) as u8);
    if queue_handlers + 1 <= pool.len() {
        pool.take(queue_handlers + 1)
    } else {
        pool
    }
}

/// The interrupt lines MSI-X vectors are routed to: one for the device's
/// configuration changes, then one for each of `queue_handlers` queue
/// handlers. Lines without a handler among `used` come first, in ascending
/// order; where they do not suffice, lines are shared, from 0 upwards. The
/// lines range over `0..=vector_max - 32`, vectors 0 to 31 being the CPU's
/// exceptions.
pub fn choose_msix_lines(used: &Vec<u8>, vector_max: u8, queue_handlers: usize) -> (r: Vec<u8>)
    requires
        vector_max >= 32,
        queue_handlers < usize::MAX,
    ensures
        r@ == msix_lines(used@, vector_max, queue_handlers),
{
    let needed = queue_handlers + 1;
    let last: u8 = vector_max - 32;
    let ghost free = free_lines(last, used@);
    let ghost all = all_lines(last);
    let mut r: Vec<u8> = Vec::new();
    let mut v: u16 = 0;
    while v <= last as u16
        invariant
            v <= last as u16 + 1,
            last == vector_max - 32,
            free == free_lines(last, used@),
            r@ == lines_upto(v as int, used@),
        decreases last as u16 + 1 - v,
    {
        let line = v as u8;
        let mut in_use = false;
        let mut k: usize = 0;
        while k < used.len()
            invariant
                k <= used.len(),
                in_use <==> exists|j: int| 0 <= j < k && used@[j] == line,
            decreases used.len() - k,
        {
            if used[k] == line {
                in_use = true;
            }
            k += 1;
        }
        if !in_use {
            r.push(line);
        }
        v += 1;
    }
    assert(r@ == free);
    let mut v: u16 = 0;
    while v <= last as u16
        invariant
            v <= last as u16 + 1,
            last == vector_max - 32,
            all == all_lines(last),
            r@ == free + all.take(v as int),
        decreases last as u16 + 1 - v,
    {
        assert(all.take(v as int + 1) == all.take(v as int).push(v as u8));
        r.push(v as u8);
        v += 1;
    }
    assert(all.take(last as int + 1) == all);
    if r.len() > needed {
        r.truncate(needed);
    }
    r
}

} // verus!
