use hermit_kernel::drivers::net::ixgbe::{
    ixgbe_ivar, ixgbe_ral, ixgbe_rah, ixgbe_rdbal, ixgbe_srrctl, link_speed, mac_from_ral_rah,
    max_burst_size as ixgbe_max_burst_size, rx_srrctl, tx_desc_hi, tx_txdctl, LinkSpeed, RxRing,
    TxRing, BUF_SIZE, TX_RING_SIZE,
};
use hermit_kernel::drivers::net::mtu;
use hermit_kernel::drivers::net::rtl8139::{
    acknowledged_interrupts, has_packet, interrupt_mask, max_burst_size, RxFields, TxFields,
    RX_BUF_LEN, TSD_TABT, TSD_TOK,
};
use hermit_kernel::drivers::net::uhyve::UhyveNetwork;
use hermit_kernel::drivers::net::virtio::checksum::{
    addr_sum, ipv4_pseudo_header_partial_checksum, ipv6_pseudo_header_partial_checksum,
    ones_complement_add,
};
use hermit_kernel::drivers::net::virtio::{
    checksum_request, determine_mtu, determine_rx_buf_size, EtherType,
};
use hermit_kernel::drivers::net::virtio_mmio::read_is_consistent;
use hermit_kernel::drivers::net::virtio_net::{get_max_vq_pairs, is_announce, is_link_up};
use hermit_kernel::drivers::net::virtio_pci::NetDevCfgRaw;

#[test]
fn mtu_configuration() {
    assert_eq!(mtu(None), 1514);
    assert_eq!(mtu(Some("9000")), 9000);
    assert_eq!(determine_mtu(true, 1400, 1514), 1400);
    assert_eq!(determine_mtu(false, 1400, 1514), 1514);
}

#[test]
fn receive_buffer_sizes() {
    assert_eq!(determine_rx_buf_size(1514, true, Some("4096"), false, false, false), 4096);
    assert_eq!(determine_rx_buf_size(1514, false, Some("4096"), false, false, false), 1514);
    assert_eq!(determine_rx_buf_size(1000, false, None, false, false, false), 1514);
    assert_eq!(determine_rx_buf_size(1000, true, None, true, false, false), 65550);
    assert_eq!(determine_rx_buf_size(9000, false, None, false, false, false), 9000);
}

#[test]
fn ones_complement_arithmetic() {
    assert_eq!(ones_complement_add(0xffff, 1), 1);
    assert_eq!(ones_complement_add(0x8000, 0x8000), 1);
    assert_eq!(ones_complement_add(0x1234, 0x0001), 0x1235);
    // Commutative and associative.
    let (a, b, c) = (0xfff0u16, 0x0123u16, 0x8001u16);
    assert_eq!(ones_complement_add(a, b), ones_complement_add(b, a));
    assert_eq!(
        ones_complement_add(ones_complement_add(a, b), c),
        ones_complement_add(a, ones_complement_add(b, c))
    );
    assert_eq!(addr_sum(&[0xc0, 0xa8, 0x00, 0x01]), 0xc0a9);
}

#[test]
fn pseudo_header_checksums() {
    assert_eq!(
        ipv4_pseudo_header_partial_checksum([192, 168, 0, 1], [192, 168, 0, 199], 17, 28, 20),
        0x8232
    );
    let mut src = [0u8; 16];
    src[0] = 0xfe;
    src[1] = 0x80;
    src[15] = 1;
    let mut dst = [0u8; 16];
    dst[0] = 0xff;
    dst[1] = 0x02;
    dst[15] = 0x16;
    assert_eq!(ipv6_pseudo_header_partial_checksum(src, dst, 40, 58), 0xfdfc);
}

#[test]
fn checksum_requests() {
    assert_eq!(checksum_request(true, true, EtherType::Ipv4, 20, 6), None);
    assert_eq!(checksum_request(false, false, EtherType::Other, 20, 6), None);
    assert_eq!(checksum_request(false, true, EtherType::Ipv4, 20, 6), Some((20, 16)));
    assert_eq!(checksum_request(true, false, EtherType::Ipv6, 40, 17), Some((40, 6)));
    assert_eq!(checksum_request(true, false, EtherType::Ipv6, 40, 6), None);
    assert_eq!(checksum_request(false, false, EtherType::Ipv4, 20, 1), None);
}

#[test]
fn virtio_net_status() {
    assert!(is_link_up(false, 0));
    assert!(is_link_up(true, 1));
    assert!(!is_link_up(true, 2));
    assert!(is_announce(true, 2));
    assert!(!is_announce(false, 2));
    assert_eq!(get_max_vq_pairs(true, 4), 4);
    assert_eq!(get_max_vq_pairs(false, 4), 1);
    assert!(read_is_consistent(3, 3));
    assert!(!read_is_consistent(3, 4));
    let cfg = NetDevCfgRaw { mac: [1, 2, 3, 4, 5, 6], status: 1, max_virtqueue_pairs: 2, mtu: 1500 };
    assert_eq!(cfg.get_mac(), [1, 2, 3, 4, 5, 6]);
    assert_eq!(cfg.get_mtu(), 1500);
    assert_eq!(cfg.get_status(), 1);
    assert_eq!(cfg.get_max_virtqueue_pairs(), 2);
}

#[test]
fn uhyve_network_mac() {
    let n = UhyveNetwork::new(&[0xa, 0xb, 0xc, 0xd, 0xe, 0xf]);
    assert_eq!(n.get_mac_address(), [0xa, 0xb, 0xc, 0xd, 0xe, 0xf]);
}

#[test]
fn ixgbe_registers() {
    assert_eq!(ixgbe_ivar(2), 0x908);
    assert_eq!(ixgbe_srrctl(1), 0x1054);
    assert_eq!(ixgbe_ral(1), 0xa208);
    assert_eq!(ixgbe_rah(0), 0xa204);
    assert_eq!(ixgbe_rdbal(0), 0x1000);
    assert_eq!(mac_from_ral_rah(0x1200_5452, 0x8000_5634), [0x52, 0x54, 0x00, 0x12, 0x34, 0x56]);
    assert_eq!(rx_srrctl(0xffff_ffff), 0xf3ff_ffe2);
    assert_eq!(tx_txdctl(0), 0x0004_0824);
    assert_eq!(link_speed(0), None);
    assert_eq!(link_speed(0x7000_0000), Some(LinkSpeed::Speed10G));
    assert_eq!(link_speed(0x6000_0000), Some(LinkSpeed::Speed1G));
    assert_eq!(link_speed(0x5000_0000), Some(LinkSpeed::Speed100M));
    assert_eq!(link_speed(0x4000_0000), Some(LinkSpeed::Unknown));
    assert_eq!(tx_desc_hi(60), 0x000F_0000_2B30_003C);
    assert_eq!(ixgbe_max_burst_size(), TX_RING_SIZE / 2);
}

#[test]
fn ixgbe_rings() {
    assert!(RxRing::has_packet(1));
    assert!(!RxRing::has_packet(1 << 32));
    assert_eq!(RxRing::frame_len(60u64 << 32), 60);
    assert_eq!(RxRing::frame_len(0xffffu64 << 32), BUF_SIZE);
    assert_eq!(RxRing::buf_offset(3), 3 * BUF_SIZE);
    let mut rx = RxRing { index: 511 };
    assert_eq!(rx.advance(), 511);
    assert_eq!(rx.index, 0);
    let mut tx = TxRing { index: 5, clean_index: 2 };
    let mut hi = vec![0u64; TX_RING_SIZE];
    hi[2] = 1u64 << 32;
    hi[3] = 1u64 << 32;
    tx.clean(&hi);
    assert_eq!(tx.clean_index, 4);
    hi[4] = 1u64 << 32;
    tx.clean(&hi);
    assert_eq!(tx.clean_index, 5);
    assert!(!tx.is_full());
    let full = TxRing { index: 4, clean_index: 5 };
    assert!(full.is_full());
    assert_eq!(tx.advance(), 6);
}

#[test]
fn rtl8139_receive_ring() {
    let mut buf = vec![0u8; RX_BUF_LEN];
    // Status word, then a length of 8 including the 4-byte CRC, then data.
    buf[0] = 0x01;
    buf[2] = 8;
    buf[4..8].copy_from_slice(&[1, 2, 3, 4]);
    let mut rx = RxFields { rxpos: 0, rx_in_use: false };
    assert_eq!(rx.rx_peek_u16(&buf), 1);
    let frame = rx.receive_frame(&buf);
    assert_eq!(frame, vec![1, 2, 3, 4]);
    assert_eq!(rx.rxpos, 2);
    let capr = rx.consume_current_buffer(&buf);
    assert_eq!(rx.rxpos, 12);
    assert_eq!(capr, (RX_BUF_LEN - 4) as u16);
    let mut wrap = RxFields { rxpos: RX_BUF_LEN - 2, rx_in_use: true };
    wrap.advance_rxpos(6);
    assert_eq!(wrap.rxpos, 4);
    assert!(has_packet(0, 1));
    assert!(!has_packet(1, 1));
    assert!(!has_packet(0, 2));
}

#[test]
fn rtl8139_transmit_buffers() {
    let mut tx = TxFields { tx_in_use: [false; 4], tx_counter: 0, remaining_bufs: 4 };
    assert!(tx.can_transmit());
    assert_eq!(tx.take_buffer(100), 0);
    assert_eq!(tx.take_buffer(100), 1);
    assert_eq!(tx.tx_in_use, [true, true, false, false]);
    tx.tx_handler([TSD_TOK, TSD_TOK | TSD_TABT, TSD_TOK, 0]);
    assert_eq!(tx.tx_in_use, [false, true, false, false]);
    assert_eq!(tx.remaining_bufs, 5);
    tx.token_dropped();
    assert_eq!(tx.remaining_bufs, 6);
    assert_eq!(acknowledged_interrupts(0xffff), 0x1f);
    assert_eq!(interrupt_mask(true), 0x1e);
    assert_eq!(interrupt_mask(false), 0x1f);
    assert_eq!(max_burst_size(1514), 4);
    assert_eq!(max_burst_size(4000), 2);
}
