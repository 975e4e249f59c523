use hermit_kernel::drivers::blk::{init_blk_queues, F_MQ};
use hermit_kernel::drivers::console::{init_console, VirtioConsoleError, CONSOLE_F_VERSION_1};
use hermit_kernel::drivers::fs::{fs_queue_count, init_fs_queues, VirtioFsInitError, FS_F_VERSION_1};
use hermit_kernel::drivers::net::virtio::{
    init_net, Checksum, F_CSUM, F_MAC, F_RING_PACKED, F_VERSION_1,
};
use hermit_kernel::drivers::net::virtio_net::VirtioNetError;
use hermit_kernel::drivers::vsock::{init_vsock, VirtioVsockError, VSOCK_F_VERSION_1};
use hermit_kernel::drivers::fs::virtio_fs::{
    negotiate_features, FeatureSet, Features, VirtioFsError, KNOWN_FEATURES,
};
use hermit_kernel::drivers::virtio::depr::{accepted_features_hi, vq_count, virtio_fs_config_tag};
use hermit_kernel::drivers::pci::PciError;
use hermit_kernel::drivers::virtio::transport::pci::{
    choose_msix_lines, map_caps, CapCfgError, CapCfgType, CapData, FoundCap, NotifCfg, NotifCtrl, PciBar, PciCap,
};
use hermit_kernel::drivers::virtio::transport::{
    notification_data, notification_vqn, ComCfg, CommonCfgRegisters, InterruptCapability, QueueRegs,
    NotifWrite,
};
use hermit_kernel::drivers::virtio::virtqueue::packed::{
    wrapping_contains, DescriptorRing, PackedDesc, PackedVq, RingIdx, WrapCount, DESC_F_AVAIL,
    DESC_F_USED,
};
use hermit_kernel::drivers::virtio::virtqueue::split::{dev_is_notif, DescrRing, SplitDesc, SplitVq};
use hermit_kernel::drivers::virtio::virtqueue::{packed, split};
use hermit_kernel::drivers::virtio::virtqueue::{
    descriptor_iter, AvailBufferToken, BufferElem, BufferType, IncompleteDesc, MemPool, VirtqError,
};
use hermit_kernel::drivers::virtio::{
    as_feature, features_from_words, ControlRegisters, ControlRegistersAccess, DeviceId,
    virtio_kind, FeatureRegisters, VirtioError, VIRTIO_F_IN_ORDER, VIRTIO_F_NOTIFICATION_DATA,
};

#[test]
fn feature_negotiation_keeps_common_features() {
    let mut regs = FeatureRegisters { device: 0x0000_0001_0000_0000_0000_0003_1234_5678, driver: 0 };
    let common = regs.negotiate_features(0x0000_0001_0000_0000_0000_0001_0000_0008);
    assert_eq!(common, 0x0000_0001_0000_0000_0000_0001_0000_0008);
    assert_eq!(regs.driver, common);
    assert_eq!(regs.device, 0x0000_0001_0000_0000_0000_0003_1234_5678);
}

#[test]
fn feature_words_round_trip() {
    let f = features_from_words(0x1111_1111, 0x2222_2222, 0x3333_3333, 0x4444_4444);
    assert_eq!(f, 0x4444_4444_3333_3333_2222_2222_1111_1111);
    let mut regs = FeatureRegisters { device: f, driver: 0 };
    assert_eq!(regs.read_device_feature_word(2), 0x3333_3333);
    assert_eq!(regs.read_device_features(), f);
    regs.write_driver_features(f);
    assert_eq!(regs.driver, f);
    regs.write_driver_feature_word(0, 0xdead_beef);
    assert_eq!(regs.driver, 0x4444_4444_3333_3333_2222_2222_dead_beef);
}

#[test]
fn optional_device_features() {
    assert_eq!(as_feature(DeviceId::Net), Some("virtio-net"));
    assert_eq!(as_feature(DeviceId::Vsock), Some("virtio-vsock"));
    assert_eq!(as_feature(DeviceId::Block), None);
    assert_eq!(as_feature(DeviceId::Other(42)), None);
}

#[test]
fn fs_config_tag() {
    let mut raw = [0u8; 36];
    raw[..6].copy_from_slice(b"myroot");
    let tag = virtio_fs_config_tag::new(raw);
    assert_eq!(tag.name_len(), 6);
    assert_eq!(tag.as_str(), Some("myroot"));
    let full = virtio_fs_config_tag::new([b'a'; 36]);
    assert_eq!(full.name_len(), 36);
    assert_eq!(full.as_str().map(|s| s.len()), Some(36));
    let mut bad = [0u8; 36];
    bad[0] = 0xff;
    assert_eq!(virtio_fs_config_tag::new(bad).as_str(), None);
}

#[test]
fn earlier_fs_driver_setup() {
    assert_eq!(vq_count(0), None);
    assert_eq!(vq_count(1), Some(2));
    assert_eq!(vq_count(0xffff), Some(0));
    assert_eq!(accepted_features_hi(0, 1), Some(1));
    assert_eq!(accepted_features_hi(0xffff_ffff, 0), None);
}

#[test]
fn fs_feature_negotiation() {
    let wanted = [Features::VIRTIO_F_VERSION_1];
    let dev = 0x1_0000_0000u64 | 0x1000_0000;
    assert_eq!(negotiate_features(&wanted, dev).map(|s| s.bits()), Ok(0x1_0000_0000));
    match negotiate_features(&[Features::VIRTIO_F_RING_PACKED], dev) {
        Err(VirtioFsError::IncompFeatsSet(drv, d)) => {
            assert_eq!(drv.bits(), 0x4_0000_0000);
            assert_eq!(d.bits(), dev);
        }
        _ => panic!("expected incompatible feature sets"),
    }
    let mut set = FeatureSet::new(0);
    set.set_features(&[Features::VIRTIO_F_IN_ORDER, Features::VIRTIO_F_SR_IOV]);
    assert!(set.is_feature(Features::VIRTIO_F_IN_ORDER));
    assert!(!set.is_feature(Features::VIRTIO_F_VERSION_1));
    assert_eq!(
        Features::from_set(set),
        Some(vec![Features::VIRTIO_F_IN_ORDER, Features::VIRTIO_F_SR_IOV])
    );
    assert_eq!(Features::from_set(FeatureSet::new(0)), None);
    assert!(FeatureSet::check_features(&wanted).is_ok());
}

#[test]
fn buffer_tokens() {
    assert_eq!(AvailBufferToken::new(vec![], vec![]).err(), Some(VirtqError::BufferNotSpecified));
    let t = AvailBufferToken::new(
        vec![BufferElem::Sized { size: 12 }],
        vec![BufferElem::Vector { len: 0, capacity: 1500 }, BufferElem::Sized { size: 1 }],
    )
    .unwrap();
    assert_eq!(t.num_descr(), 3);
    assert_eq!(t.num_consuming_descr(BufferType::Direct), 3);
    assert_eq!(t.num_consuming_descr(BufferType::Indirect), 1);
    assert_eq!(BufferElem::Vector { len: 3, capacity: 8 }.len(), 3);
    assert_eq!(BufferElem::Vector { len: 3, capacity: 8 }.capacity(), 8);
}

#[test]
fn memory_pool_hands_out_last_returned_id_first() {
    let mut pool = MemPool::new(3);
    assert!(pool.all_available());
    assert_eq!(pool.take_id(), Some(2));
    assert_eq!(pool.take_id(), Some(1));
    assert!(!pool.all_available());
    pool.ret_id(2);
    assert_eq!(pool.take_id(), Some(2));
    assert_eq!(pool.take_id(), Some(0));
    assert_eq!(pool.take_id(), None);
}

#[test]
fn packed_ring_push_and_poll() {
    let mut ring: DescriptorRing<&str> = DescriptorRing::new(4);
    let desc = PackedDesc { addr: 0x1000, len: 64, id: 0, flags: 0 };
    assert_eq!(ring.push("empty", vec![]), Err(VirtqError::BufferNotSpecified));
    assert_eq!(ring.push("a", vec![desc, desc]), Ok(RingIdx { off: 2, wrap: 1 }));
    assert_eq!(ring.push("big", vec![desc, desc, desc]), Err(VirtqError::NoDescrAvail));
    assert_eq!(ring.push("b", vec![desc, desc]), Ok(RingIdx { off: 0, wrap: 0 }));
    // Nothing is used yet.
    assert_eq!(ring.poll_next(), None);
    // The first push took id 3 and kept it, since it had no descriptor; the
    // device marks the first buffer (id 2) used.
    ring.record_device_write(0, PackedDesc { addr: 0, len: 100, id: 2, flags: DESC_F_AVAIL | DESC_F_USED });
    assert_eq!(ring.poll_next(), Some(("a", 100)));
    // Room for two descriptors again.
    assert_eq!(ring.push("c", vec![desc]), Ok(RingIdx { off: 1, wrap: 0 }));
}

#[test]
fn ring_index_ranges() {
    let s = RingIdx { off: 2, wrap: 1 };
    let e = RingIdx { off: 5, wrap: 1 };
    assert!(wrapping_contains(s, e, RingIdx { off: 3, wrap: 1 }));
    assert!(!wrapping_contains(s, e, RingIdx { off: 5, wrap: 1 }));
    let e2 = RingIdx { off: 1, wrap: 0 };
    assert!(wrapping_contains(s, e2, RingIdx { off: 7, wrap: 1 }));
    assert!(wrapping_contains(s, e2, RingIdx { off: 0, wrap: 0 }));
    assert!(!wrapping_contains(s, e2, RingIdx { off: 1, wrap: 0 }));
    let mut wc = WrapCount::new();
    assert!(wc.0);
    wc.wrap();
    assert!(!wc.0);
    assert_eq!(WrapCount::flag_mask(), DESC_F_AVAIL | DESC_F_USED);
}

#[test]
fn notifications() {
    assert_eq!(notification_data(3, 5, 1), 0x8005_0003u32);
    assert_eq!(notification_vqn(0x8005_0003), 3);
    let mut ctrl = NotifCtrl::new(0xfe00_0000);
    assert_eq!(ctrl.notify_dev(0x8005_0003), NotifWrite::Vqn(3));
    ctrl.enable_notif_data();
    assert_eq!(ctrl.notify_dev(0x8005_0003), NotifWrite::Data(0x8005_0003));
}

#[test]
fn pci_capabilities() {
    let bar = PciBar::new(0xfe00_0000, 0x4000);
    let cap = CapData {
        cfg_type: CapCfgType::Notify,
        bar: 4,
        id: 1,
        offset: 0x3000,
        length: 0x1000,
        notify_off_multiplier: Some(4),
    };
    let pci_cap = PciCap::new(bar, cap).unwrap();
    assert_eq!(pci_cap.offset(), 0x3000);
    assert_eq!(pci_cap.len(), 0x1000);
    assert_eq!(pci_cap.bar_addr(), 0xfe00_0000);
    assert_eq!(pci_cap.map_cap_cfg(CapCfgType::Common, 0x10), Err(CapCfgError::WrongCfgType));
    assert_eq!(pci_cap.map_cap_cfg(CapCfgType::Notify, 0x2000), Err(CapCfgError::StructTooLarge));
    assert_eq!(pci_cap.map_cap_cfg(CapCfgType::Notify, 0x10), Ok(0xfe00_3000));
    let notif = NotifCfg::new(&pci_cap).unwrap();
    assert_eq!(notif.notification_location(3), 0xfe00_300c);
    let too_far = CapData { offset: 0x3800, ..cap };
    assert!(PciCap::new(bar, too_far).is_none());
}

#[test]
fn split_ring_push_and_recv() {
    let mut ring: DescrRing<&str> = DescrRing::new(4);
    assert!(ring.is_empty());
    let d = SplitDesc { addr: 0x1000, len: 64, flags: 0, next: 0 };
    assert_eq!(ring.push("a", vec![d, d]), Ok(1));
    assert!(!ring.is_empty());
    assert_eq!(ring.try_recv(0, 0, 0).err(), Some(VirtqError::NoNewUsed));
    assert!(ring.has_used_buffers(1));
    // The chain of "a" starts at id 2, the last id its push took.
    assert_eq!(ring.try_recv(1, 2, 50).ok(), Some(("a", 50)));
    assert!(!ring.has_used_buffers(1));
    assert!(ring.is_empty());
    // A buffer larger than the ring cannot be placed.
    assert_eq!(ring.push("b", vec![d; 5]), Err(VirtqError::NoDescrAvail));
    assert!(dev_is_notif(0));
    assert!(!dev_is_notif(1));
    ring.drv_disable_notif();
    ring.drv_enable_notif();
}

fn vendor(cfg_type: CapCfgType, offset: u64, length: u64, multiplier: Option<u32>) -> FoundCap {
    let cap = CapData { cfg_type, bar: 0, id: 0, offset, length, notify_off_multiplier: multiplier };
    FoundCap::Vendor(cap, Some(PciBar::new(0xfe00_0000, 0x4000)))
}

#[test]
fn capability_selection() {
    let caps = vec![
        FoundCap::Other,
        vendor(CapCfgType::Pci, 0, 0x40, None),
        vendor(CapCfgType::Common, 0x0000, 0x10, None),
        vendor(CapCfgType::Common, 0x0100, 0x40, None),
        vendor(CapCfgType::Common, 0x0200, 0x40, None),
        vendor(CapCfgType::Notify, 0x1000, 0x1000, None),
        vendor(CapCfgType::Notify, 0x3000, 0x1000, Some(4)),
        vendor(CapCfgType::Isr, 0x2000, 0x1, None),
        vendor(CapCfgType::Device, 0x2100, 0x100, None),
        vendor(CapCfgType::Device, 0x5000, 0x100, None),
        FoundCap::Vendor(
            CapData {
                cfg_type: CapCfgType::Device,
                bar: 2,
                id: 0,
                offset: 0,
                length: 8,
                notify_off_multiplier: None,
            },
            None,
        ),
        vendor(CapCfgType::Device, 0x2200, 0x100, None),
    ];
    let (coll, devs) = map_caps(0x1041, true, &caps).unwrap();
    assert_eq!(coll.com_cfg, 0xfe00_0100);
    assert_eq!(coll.notif_cfg.notification_location(1), 0xfe00_3004);
    assert_eq!(coll.int_cap, InterruptCapability::IsrStatus(0xfe00_2000));
    assert_eq!(devs.len(), 2);
    assert_eq!(devs[0].offset(), 0x2100);
    assert_eq!(devs[1].offset(), 0x2200);

    let mut with_msix = caps.clone();
    with_msix.push(FoundCap::MsiX(0xfee0_0000));
    with_msix.push(FoundCap::MsiX(0xfee1_0000));
    let (coll, _) = map_caps(0x1041, true, &with_msix).unwrap();
    assert_eq!(coll.int_cap, InterruptCapability::Msix(0xfee1_0000));
}

#[test]
fn capability_selection_refusals() {
    let common = vendor(CapCfgType::Common, 0x0100, 0x40, None);
    let notify = vendor(CapCfgType::Notify, 0x3000, 0x1000, Some(4));
    let isr = vendor(CapCfgType::Isr, 0x2000, 0x1, None);
    let full = vec![common, notify, isr];
    assert!(matches!(
        map_caps(0x1041, false, &full),
        Err(VirtioError::FromPci(PciError::NoCapPtr(0x1041)))
    ));
    assert!(matches!(map_caps(0x1041, true, &vec![notify, isr]), Err(VirtioError::NoComCfg(0x1041))));
    assert!(matches!(map_caps(0x1041, true, &vec![common, isr]), Err(VirtioError::NoNotifCfg(0x1041))));
    assert!(matches!(map_caps(0x1041, true, &vec![common, notify]), Err(VirtioError::NoIsrCfg(0x1041))));
    assert!(map_caps(0x1041, true, &vec![common, notify, FoundCap::MsiX(0xfee0_0000)]).is_ok());
}

#[test]
fn device_set_up_handshake() {
    let queue = |size: u16, notify_off: u16| QueueRegs { size, notify_off, enabled: false };
    let regs = CommonCfgRegisters {
        status: 0x40,
        queues: vec![queue(256, 0), queue(0, 0), queue(1024, 2)],
        rejects_features: false,
        device_features: 0,
        driver_features: 0,
    };
    let mut com_cfg = ComCfg::new(regs);
    assert!(com_cfg.does_device_need_reset());
    com_cfg.reset_dev();
    assert!(!com_cfg.does_device_need_reset());
    com_cfg.ack_dev();
    com_cfg.set_drv();
    assert!(!com_cfg.check_features());
    com_cfg.features_ok();
    assert!(com_cfg.check_features());
    assert!(com_cfg.select_vq(1).is_none());
    assert!(com_cfg.select_vq(7).is_none());
    let vq0 = com_cfg.select_vq(0).unwrap();
    assert_eq!(vq0.set_vq_size(&mut com_cfg, 1024), 256);
    let vq2 = com_cfg.select_vq(2).unwrap();
    assert_eq!(vq2.set_vq_size(&mut com_cfg, 512), 512);
    assert_eq!(vq2.set_vq_size(&mut com_cfg, 1024), 512);
    assert_eq!(vq2.notif_off(&mut com_cfg), 2);
    vq2.enable_queue(&mut com_cfg);
    com_cfg.drv_ok();
    com_cfg.set_failed();
    assert!(!com_cfg.check_features());
}

#[test]
fn msix_line_choice() {
    let used = vec![0u8, 1, 3];
    assert_eq!(choose_msix_lines(&used, 36, 0), vec![2]);
    assert_eq!(choose_msix_lines(&used, 36, 3), vec![2, 4, 0, 1]);
    assert_eq!(choose_msix_lines(&used, 36, 20), vec![2, 4, 0, 1, 2, 3, 4]);
    assert_eq!(choose_msix_lines(&Vec::new(), 32, 1), vec![0, 0]);
}

#[test]
fn virtqueue_set_up() {
    let queue = |size: u16, notify_off: u16| QueueRegs { size, notify_off, enabled: false };
    let regs = CommonCfgRegisters {
        status: 0,
        queues: vec![queue(256, 1), queue(0, 0), queue(64, 3)],
        rejects_features: false,
        device_features: 0,
        driver_features: 0,
    };
    let mut com_cfg = ComCfg::new(regs);
    let cap = CapData {
        cfg_type: CapCfgType::Notify,
        bar: 4,
        id: 1,
        offset: 0x3000,
        length: 0x1000,
        notify_off_multiplier: Some(4),
    };
    let notif_cfg = NotifCfg::new(&PciCap::new(PciBar::new(0xfe00_0000, 0x4000), cap).unwrap()).unwrap();

    assert!(matches!(
        PackedVq::<u32>::new(&mut com_cfg, &notif_cfg, 128, 0, VIRTIO_F_IN_ORDER),
        Err(VirtqError::FeatureNotSupported(VIRTIO_F_IN_ORDER))
    ));
    assert!(matches!(
        PackedVq::<u32>::new(&mut com_cfg, &notif_cfg, 128, 1, 0),
        Err(VirtqError::QueueNotExisting(1))
    ));
    assert!(matches!(
        PackedVq::<u32>::new(&mut com_cfg, &notif_cfg, 0, 0, 0),
        Err(VirtqError::QueueSizeNotAllowed(0))
    ));
    assert!(matches!(
        PackedVq::<u32>::new(&mut com_cfg, &notif_cfg, 0x8001, 0, 0),
        Err(VirtqError::QueueSizeNotAllowed(0x8001))
    ));
    let mut packed =
        PackedVq::<u32>::new(&mut com_cfg, &notif_cfg, 128, 0, VIRTIO_F_NOTIFICATION_DATA).ok().unwrap();
    assert_eq!(packed.size(), 128);
    assert_eq!(packed.index(), 0);
    packed.disable_notifs();
    packed.enable_notifs();

    assert!(matches!(
        SplitVq::<u32>::new(&mut com_cfg, &notif_cfg, 1024, 1, 0),
        Err(VirtqError::QueueNotExisting(1))
    ));
    let mut split = SplitVq::<u32>::new(&mut com_cfg, &notif_cfg, 1024, 2, 0).ok().unwrap();
    assert_eq!(split.size(), 64);
    assert_eq!(split.index(), 2);
    split.disable_notifs();
    split.enable_notifs();
}

#[test]
fn buffer_descriptors() {
    let tkn = AvailBufferToken::new(
        vec![BufferElem::Sized { size: 12 }, BufferElem::Vector { len: 100, capacity: 1500 }],
        vec![BufferElem::Vector { len: 0, capacity: 2048 }],
    )
    .unwrap();
    let descs = descriptor_iter(&tkn, &vec![0x1000, 0x2000, 0x3000]).unwrap();
    assert_eq!(
        descs,
        vec![
            IncompleteDesc { addr: 0x1000, len: 12, flags: 1 },
            IncompleteDesc { addr: 0x2000, len: 100, flags: 1 },
            IncompleteDesc { addr: 0x3000, len: 2048, flags: 2 },
        ]
    );
    let send_only = AvailBufferToken::new(vec![BufferElem::Sized { size: 4 }], vec![]).unwrap();
    assert_eq!(
        descriptor_iter(&send_only, &vec![0x10]).unwrap(),
        vec![IncompleteDesc { addr: 0x10, len: 4, flags: 0 }]
    );
    let empty = AvailBufferToken { send_buff: vec![], recv_buff: vec![] };
    assert_eq!(descriptor_iter(&empty, &vec![]), Err(VirtqError::BufferNotSpecified));
}

#[test]
fn indirect_tables() {
    let tkn = AvailBufferToken::new(
        vec![BufferElem::Sized { size: 12 }],
        vec![BufferElem::Vector { len: 0, capacity: 64 }, BufferElem::Sized { size: 8 }],
    )
    .unwrap();
    let addrs = vec![0x100, 0x200, 0x300];
    assert_eq!(
        split::create_indirect_ctrl(&tkn, &addrs).unwrap(),
        vec![
            SplitDesc { addr: 0x100, len: 12, flags: 1, next: 1 },
            SplitDesc { addr: 0x200, len: 64, flags: 3, next: 2 },
            SplitDesc { addr: 0x300, len: 8, flags: 2, next: 3 },
        ]
    );
    assert_eq!(
        packed::create_indirect_ctrl(&tkn, &addrs).unwrap(),
        vec![
            PackedDesc { addr: 0x100, len: 12, id: 0, flags: 1 },
            PackedDesc { addr: 0x200, len: 64, id: 0, flags: 3 },
            PackedDesc { addr: 0x300, len: 8, id: 0, flags: 2 },
        ]
    );
}

#[test]
fn new_feature_set_is_empty() {
    let set = FeatureSet::new(0x1_0000_0000);
    assert_eq!(set.bits(), 0);
    assert!(!set.is_feature(Features::VIRTIO_F_VERSION_1));
    assert!(FeatureSet::from_bits(0x1_0000_0000).is_feature(Features::VIRTIO_F_VERSION_1));
}

#[test]
fn found_features_set_again_give_known_bits() {
    for bits in [u64::MAX, 0x1_3000_0000, 0x8000_0000_0000_0001 | 0x40_0000_0000] {
        let found = Features::from_set(FeatureSet::from_bits(bits)).unwrap();
        let mut set = FeatureSet::new(0);
        set.set_features(&found);
        assert_eq!(set.bits(), bits & KNOWN_FEATURES);
        assert!(found.windows(2).all(|w| w[0].bits() < w[1].bits()));
    }
}

#[test]
fn fs_queue_counts() {
    assert_eq!(fs_queue_count(1), Ok(2));
    assert_eq!(fs_queue_count(8), Ok(9));
    assert_eq!(fs_queue_count(0), Ok(1));
    assert_eq!(fs_queue_count(u32::MAX), Err(VirtioFsInitError::Unknown));
}

#[test]
fn buffer_element_constructors() {
    let v = BufferElem::vector(100, 1500);
    assert_eq!(v, BufferElem::Vector { len: 100, capacity: 1500 });
    assert!(v.len() <= v.capacity());
    let s = BufferElem::sized(12);
    assert_eq!(s.len(), 12);
    assert_eq!(s.capacity(), 12);
}

#[test]
fn device_refusing_features() {
    let regs = CommonCfgRegisters {
        status: 0,
        queues: vec![],
        rejects_features: true,
        device_features: 0,
        driver_features: 0,
    };
    let mut com_cfg = ComCfg::new(regs);
    com_cfg.reset_dev();
    com_cfg.ack_dev();
    com_cfg.set_drv();
    com_cfg.features_ok();
    assert!(!com_cfg.check_features());
}

fn test_notif_cfg() -> NotifCfg {
    let cap = CapData {
        cfg_type: CapCfgType::Notify,
        bar: 4,
        id: 1,
        offset: 0x3000,
        length: 0x1000,
        notify_off_multiplier: Some(4),
    };
    NotifCfg::new(&PciCap::new(PciBar::new(0xfe00_0000, 0x4000), cap).unwrap()).unwrap()
}

fn test_com_cfg(num_queues: usize, rejects_features: bool, device_features: u128) -> ComCfg<CommonCfgRegisters> {
    let queues = (0..num_queues).map(|i| QueueRegs { size: 256, notify_off: i as u16, enabled: false }).collect();
    ComCfg::new(CommonCfgRegisters { status: 0, queues, rejects_features, device_features, driver_features: 0 })
}

#[test]
fn network_device_set_up() {
    let notif_cfg = test_notif_cfg();
    let offer = F_VERSION_1 | F_MAC | F_CSUM | F_RING_PACKED | (1u128 << 35);
    let mut com_cfg = test_com_cfg(2, false, offer);
    let init = init_net::<_, u32>(&mut com_cfg, &notif_cfg, 7, 1, 128).ok().unwrap();
    assert_eq!(init.features, F_VERSION_1 | F_MAC | F_CSUM | F_RING_PACKED);
    assert_eq!(init.checksums, Checksum::Rx);
    assert_eq!(init.num_vqs, 2);
    assert_eq!(init.recv_vqs.len(), 1);
    assert_eq!(init.send_vqs.len(), 1);
    assert_eq!(init.send_capacity, 128);
    assert!(com_cfg.check_features());
    assert_eq!(com_cfg.regs().driver_features, F_VERSION_1 | F_MAC | F_CSUM | F_RING_PACKED);
    assert_eq!(com_cfg.dev_features(), offer);

    let mut refusing = test_com_cfg(2, true, offer);
    assert!(matches!(
        init_net::<_, u32>(&mut refusing, &notif_cfg, 7, 1, 128),
        Err(VirtioNetError::FailFeatureNeg(7))
    ));
    assert_eq!(refusing.regs().driver_features, F_VERSION_1 | F_MAC | F_CSUM | F_RING_PACKED);
    let mut com_cfg = test_com_cfg(2, false, F_VERSION_1);
    assert!(matches!(
        init_net::<_, u32>(&mut com_cfg, &notif_cfg, 7, 1, 128),
        Err(VirtioNetError::FailFeatureNeg(7))
    ));
    assert_eq!(com_cfg.regs().driver_features, F_VERSION_1);
}

#[test]
fn socket_device_set_up() {
    let notif_cfg = test_notif_cfg();
    let mut com_cfg = test_com_cfg(3, false, VSOCK_F_VERSION_1 | 1);
    let init = init_vsock::<_, u32>(&mut com_cfg, &notif_cfg, 9, 64).ok().unwrap();
    assert_eq!(init.features, VSOCK_F_VERSION_1);
    assert_eq!(init.send_vq.size(), 64);
    assert_eq!(com_cfg.regs().driver_features, VSOCK_F_VERSION_1);
    let mut com_cfg = test_com_cfg(3, false, 1);
    assert_eq!(
        init_vsock::<_, u32>(&mut com_cfg, &notif_cfg, 9, 64).err(),
        Some(VirtioVsockError::IncompatibleFeatureSets(VSOCK_F_VERSION_1, 1))
    );
    assert_eq!(com_cfg.regs().driver_features, 0);
    let mut refusing = test_com_cfg(3, true, VSOCK_F_VERSION_1);
    assert_eq!(
        init_vsock::<_, u32>(&mut refusing, &notif_cfg, 9, 64).err(),
        Some(VirtioVsockError::FailFeatureNeg(9))
    );
}

#[test]
fn console_device_set_up() {
    let notif_cfg = test_notif_cfg();
    let mut com_cfg = test_com_cfg(2, false, CONSOLE_F_VERSION_1 | 0b111);
    let init = init_console::<_, u32>(&mut com_cfg, &notif_cfg, 3, 256).ok().unwrap();
    assert_eq!(init.features, CONSOLE_F_VERSION_1);
    assert_eq!(init.recv_vq.size(), 256);
    assert_eq!(init.send_vq.size(), 256);
    assert!(com_cfg.check_features());
    assert_eq!(com_cfg.regs().driver_features, CONSOLE_F_VERSION_1);
    assert_eq!(com_cfg.regs().status & 4, 4);
    let mut com_cfg = test_com_cfg(2, false, 0b111);
    assert_eq!(
        init_console::<_, u32>(&mut com_cfg, &notif_cfg, 3, 256).err(),
        Some(VirtioConsoleError::IncompatibleFeatureSets(CONSOLE_F_VERSION_1, 0b111))
    );
    assert_eq!(com_cfg.regs().driver_features, 0);
    let mut refusing = test_com_cfg(2, true, CONSOLE_F_VERSION_1);
    assert_eq!(
        init_console::<_, u32>(&mut refusing, &notif_cfg, 3, 256).err(),
        Some(VirtioConsoleError::FailFeatureNeg(3))
    );
}

#[test]
fn file_system_device_set_up() {
    let notif_cfg = test_notif_cfg();
    let mut com_cfg = test_com_cfg(4, false, FS_F_VERSION_1 | 1);
    let queues = init_fs_queues::<_, u32>(&mut com_cfg, &notif_cfg, 5, 3, 128).ok().unwrap();
    assert_eq!(queues.len(), 4);
    assert!(queues.iter().all(|q| q.size() == 128));
    assert_eq!(com_cfg.regs().driver_features, FS_F_VERSION_1);
    assert_eq!(com_cfg.regs().status & 4, 4);
    let mut com_cfg = test_com_cfg(1, false, FS_F_VERSION_1);
    assert_eq!(init_fs_queues::<_, u32>(&mut com_cfg, &notif_cfg, 5, 0, 128).ok().unwrap().len(), 1);
    let mut com_cfg = test_com_cfg(4, false, 1);
    assert_eq!(
        init_fs_queues::<_, u32>(&mut com_cfg, &notif_cfg, 5, 3, 128).err(),
        Some(VirtioFsInitError::FailFeatureNeg(5))
    );
    assert_eq!(com_cfg.regs().driver_features, 0);
    let mut refusing = test_com_cfg(4, true, FS_F_VERSION_1);
    assert_eq!(
        init_fs_queues::<_, u32>(&mut refusing, &notif_cfg, 5, 3, 128).err(),
        Some(VirtioFsInitError::FailFeatureNeg(5))
    );
    let mut com_cfg = test_com_cfg(0, false, FS_F_VERSION_1);
    assert_eq!(
        init_fs_queues::<_, u32>(&mut com_cfg, &notif_cfg, 5, u32::MAX, 128).err(),
        Some(VirtioFsInitError::Unknown)
    );
}

#[test]
fn block_device_queues() {
    let notif_cfg = test_notif_cfg();
    let mut com_cfg = test_com_cfg(4, false, 0);
    let queues = init_blk_queues::<_, u32>(&mut com_cfg, &notif_cfg, F_MQ, 4, 2, 128);
    assert_eq!(queues.len(), 2);
    let mut com_cfg = test_com_cfg(4, false, 0);
    let queues = init_blk_queues::<_, u32>(&mut com_cfg, &notif_cfg, 0, 4, 8, 128);
    assert_eq!(queues.len(), 1);
    assert_eq!(queues[0].size(), 128);
}

#[test]
fn virtio_device_kinds() {
    assert_eq!(virtio_kind(0x1000), Err(VirtioError::DevNotSupported(0x1000)));
    assert_eq!(virtio_kind(0x1041), Ok(DeviceId::Net));
    assert_eq!(virtio_kind(0x1042), Ok(DeviceId::Block));
    assert_eq!(virtio_kind(0x1053), Ok(DeviceId::Vsock));
    assert_eq!(virtio_kind(0x105a), Ok(DeviceId::Fs));
    assert_eq!(virtio_kind(0x1050), Ok(DeviceId::Other(0x10)));
}
