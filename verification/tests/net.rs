use hermit_kernel::drivers::net::gem::{
    dma_rx_buffer_size, find_phy, mac_address_registers, next_counter, next_rx_index, next_tx_index,
    phy_answers,
    rx_descriptor_released, rx_descriptor_word0, rx_frame_length, tx_descriptor_words,
    tx_frame_word1, GEMError, RX_BUF_NUM, TX_DESC_LAST, TX_DESC_USED, TX_DESC_WRAP,
};
use hermit_kernel::drivers::net::loopback::LoopbackDriver;
use hermit_kernel::drivers::net::virtio::{
    assemble_frame, header_num_buffers, is_ethernet_frame_passable, negotiate_features,
    num_virtqueues, offload_checksums, rx_buffer_count, tx_header, Checksum, FrameCheck, SendCapacity,
    TransportCheck, DRIVER_FEATURES, F_CSUM, F_GUEST_CSUM, F_MAC, F_MTU, F_VERSION_1,
};
use hermit_kernel::drivers::net::virtio_net::VirtioNetError;

#[test]
fn gem_mac_address_registers() {
    let (bottom, top) = mac_address_registers([0x52, 0x54, 0x00, 0x12, 0x34, 0x56]);
    assert_eq!(bottom, 0x1200_5452);
    assert_eq!(top, 0x5634);
}

#[test]
fn gem_phy_probe() {
    assert!(!phy_answers(0xFFFF));
    assert!(!phy_answers(0));
    assert!(phy_answers(0x1140));
    let mut controls = [0xFFFFu16; 32];
    assert_eq!(find_phy(&controls), Err(GEMError::NoPhyFound));
    controls[7] = 0x1140;
    controls[9] = 0x1000;
    assert_eq!(find_phy(&controls), Ok(7));
}

#[test]
fn gem_descriptors() {
    assert_eq!(dma_rx_buffer_size(), 25);
    assert_eq!(rx_descriptor_word0(0x8000_1000, 0), Ok(0x8000_1000));
    assert_eq!(rx_descriptor_word0(0x8000_1000, RX_BUF_NUM - 1), Ok(0x8000_1002));
    assert_eq!(rx_descriptor_word0(0x8000_1001, 3), Err(GEMError::Unknown));
    assert_eq!(tx_descriptor_words(0x4000, 0), (0x4000, TX_DESC_USED | TX_DESC_WRAP));
    assert_eq!(rx_frame_length(0xFFFF_E05E), 0x5E);
    assert_eq!(rx_descriptor_released(0x8000_1003), 0x8000_1002);
    assert_eq!(tx_frame_word1(TX_DESC_WRAP | TX_DESC_USED | 77, 60), TX_DESC_WRAP | TX_DESC_LAST | 60);
    assert_eq!(next_counter(63, 64), 0);
}

#[test]
fn gem_next_received_frame() {
    let mut words = [0u32; 64];
    assert_eq!(next_rx_index(&words, 10), None);
    words[3] = 1;
    words[20] = 0x1001;
    assert_eq!(next_rx_index(&words, 10), Some(20));
    assert_eq!(next_rx_index(&words, 21), Some(3));
    assert_eq!(next_rx_index(&words, 3), Some(3));
}

#[test]
fn loopback_receives_in_order_of_sending() {
    let mut lo = LoopbackDriver::new();
    assert!(!lo.has_packet());
    assert!(!lo.reserve_receive());
    lo.send(vec![1]);
    lo.send(vec![2, 2]);
    assert!(lo.has_packet());
    assert!(lo.reserve_receive());
    assert!(lo.reserve_receive());
    assert!(!lo.reserve_receive());
    assert_eq!(lo.receive_reserved(), vec![1]);
    lo.send(vec![3]);
    assert_eq!(lo.receive_reserved(), vec![2, 2]);
    assert!(lo.reserve_receive());
    lo.release_receive();
    assert!(lo.reserve_receive());
    assert_eq!(lo.receive_reserved(), vec![3]);
    assert!(!lo.has_packet());
    assert_eq!(lo.get_mac_address(), [0u8; 6]);
    assert_eq!(lo.mtu(), u16::MAX);
}

#[test]
fn virtio_net_negotiation() {
    let device = F_VERSION_1 | F_MAC | F_MTU | (1u128 << 60);
    assert_eq!(negotiate_features(device, 7), Ok(F_VERSION_1 | F_MAC | F_MTU));
    assert_eq!(negotiate_features(F_VERSION_1, 7), Err(VirtioNetError::FailFeatureNeg(7)));
    assert_eq!(negotiate_features(DRIVER_FEATURES, 1), Ok(DRIVER_FEATURES));
}

#[test]
fn virtio_net_checksum_offloads() {
    assert_eq!(offload_checksums(F_CSUM | F_GUEST_CSUM), Checksum::Neither);
    assert_eq!(offload_checksums(F_CSUM), Checksum::Rx);
    assert_eq!(offload_checksums(F_GUEST_CSUM), Checksum::Tx);
    assert_eq!(offload_checksums(0), Checksum::Both);
    assert!(Checksum::Both.rx() && Checksum::Both.tx());
    assert!(!Checksum::Neither.rx() && !Checksum::Neither.tx());
}

#[test]
fn virtio_net_queue_count() {
    assert_eq!(num_virtqueues(false, 9), 2);
    assert_eq!(num_virtqueues(true, 4), 2);
    assert_eq!(num_virtqueues(true, 0), 0);
}

#[test]
fn virtio_net_frame_passability() {
    let n = Checksum::Neither;
    let tcp_ok = TransportCheck::Tcp(Some(true));
    let tcp_bad = TransportCheck::Tcp(Some(false));
    // The stack checks everything itself.
    assert!(is_ethernet_frame_passable(Checksum::Both, Checksum::Rx, false, false, FrameCheck::Malformed));
    assert!(!is_ethernet_frame_passable(n, n, false, false, FrameCheck::Malformed));
    assert!(is_ethernet_frame_passable(n, n, true, false, FrameCheck::Ipv4 { header_checksum: None, transport: tcp_bad }));
    assert!(is_ethernet_frame_passable(n, n, false, false, FrameCheck::Ipv4 { header_checksum: Some(true), transport: tcp_ok }));
    assert!(!is_ethernet_frame_passable(n, n, false, false, FrameCheck::Ipv4 { header_checksum: Some(false), transport: tcp_ok }));
    assert!(is_ethernet_frame_passable(n, n, false, true, FrameCheck::Ipv4 { header_checksum: Some(false), transport: tcp_ok }));
    assert!(!is_ethernet_frame_passable(n, n, false, true, FrameCheck::Ipv4 { header_checksum: Some(true), transport: tcp_bad }));
    assert!(is_ethernet_frame_passable(Checksum::Rx, n, false, false, FrameCheck::Ipv4 { header_checksum: Some(true), transport: tcp_bad }));
    assert!(!is_ethernet_frame_passable(n, n, false, false, FrameCheck::Ipv6 { valid: false, transport: tcp_ok }));
    assert!(is_ethernet_frame_passable(n, n, false, true, FrameCheck::Ipv6 { valid: true, transport: tcp_bad }));
    assert!(!is_ethernet_frame_passable(n, n, false, false, FrameCheck::Ipv6 { valid: true, transport: TransportCheck::Udp(None) }));
    assert!(is_ethernet_frame_passable(n, n, false, false, FrameCheck::Arp));
    assert!(is_ethernet_frame_passable(n, n, false, false, FrameCheck::Unknown));
    assert!(is_ethernet_frame_passable(n, n, false, false, FrameCheck::Ipv4 { header_checksum: Some(true), transport: TransportCheck::Other }));
}

#[test]
fn virtio_net_receive_buffers() {
    assert_eq!(rx_buffer_count(true, 3), 3);
    assert_eq!(rx_buffer_count(false, 3), 1);
    let mut first = vec![0u8; 12];
    first[10] = 2;
    first[11] = 1;
    first.extend_from_slice(&[9, 8]);
    assert_eq!(header_num_buffers(&first), Some(258));
    assert_eq!(header_num_buffers(&first[..11]), None);
    let frame = assemble_frame(&first, &vec![vec![7], vec![], vec![6, 5]]);
    assert_eq!(frame, vec![9, 8, 7, 6, 5]);
}

#[test]
fn virtio_net_send_capacity() {
    let mut c = SendCapacity::new(5);
    assert_eq!(c.max_burst_size(), 2);
    assert!(c.reserve());
    assert!(c.reserve());
    assert!(!c.reserve());
    c.give_back();
    assert_eq!(c.max_burst_size(), 1);
    c.add_released(2);
    assert_eq!(c.max_burst_size(), 3);
}

#[test]
fn transmit_header() {
    assert_eq!(tx_header(None), vec![0u8; 12]);
    assert_eq!(tx_header(Some((20, 16))), vec![1u8, 0, 0, 0, 0, 0, 34, 0, 16, 0, 0, 0]);
    assert_eq!(tx_header(Some((300, 6))), vec![1u8, 0, 0, 0, 0, 0, 0x3a, 0x01, 6, 0, 0, 0]);
}

#[test]
fn gem_transmit_buffer_search() {
    assert_eq!(next_tx_index(&[TX_DESC_USED | 42], 0), Some(0));
    assert_eq!(next_tx_index(&[42], 0), None);
}
