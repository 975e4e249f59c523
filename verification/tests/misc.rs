use hermit_kernel::console::uhyve::UhyveSerial;
use hermit_kernel::console::Console;
use hermit_kernel::drivers::console::VirtioUART;
use hermit_kernel::drivers::entropy::seed_entropy as entropy_seed;
use hermit_kernel::drivers::pci::{bar_mapping, bar_register_value, irq_in_use, next_bar_slot, Bar};
use hermit_kernel::drivers::rng::seed_entropy;
use hermit_kernel::parse::parse_unsigned;

#[test]
fn console_buffers_until_newline() {
    let mut c = Console::new();
    assert!(c.write(b"Hello").is_empty());
    assert_eq!(c.write(b"World\n"), vec![b"HelloWorld\n".to_vec()]);
    assert!(c.flush().is_empty());
    assert!(c.write(b"abc").is_empty());
    assert_eq!(c.flush(), b"abc".to_vec());
}

#[test]
fn console_output_keeps_every_byte_in_order() {
    let mut c = Console::new();
    let mut out = Vec::new();
    let inputs: Vec<Vec<u8>> = vec![vec![b'x'; 200], vec![b'y'; 100], vec![b'z'; 300], b"w\n".to_vec()];
    let mut all = Vec::new();
    for i in &inputs {
        all.extend_from_slice(i);
        for chunk in c.write(i) {
            out.extend_from_slice(&chunk);
        }
    }
    out.extend_from_slice(&c.flush());
    assert_eq!(out, all);
}

#[test]
fn console_full_buffer_is_written_out() {
    let mut c = Console::new();
    assert!(c.write(&[b'a'; 200]).is_empty());
    let out = c.write(&[b'b'; 100]);
    assert_eq!(out, vec![vec![b'a'; 200]]);
    let out = c.write(&[b'c'; 300]);
    assert_eq!(out, vec![vec![b'b'; 100], vec![b'c'; 300]]);
    assert!(c.flush().is_empty());
}

#[test]
fn uhyve_serial() {
    let mut s = UhyveSerial::new();
    let mut buf = [7u8; 4];
    assert_eq!(s.read(&mut buf), 0);
    assert_eq!(buf, [7u8; 4]);
    assert!(!s.read_ready());
    assert_eq!(s.written_len(b"abc"), 3);
    let _uart = VirtioUART::new();
}

#[test]
fn random_device_packets() {
    let packet = [5u8; 32];
    assert_eq!(seed_entropy(Some(&packet[..])), Some([5u8; 32]));
    assert_eq!(seed_entropy(Some(&packet[..31])), None);
    assert_eq!(seed_entropy(None), None);
    assert_eq!(entropy_seed(Some(&packet[..])), Some([5u8; 32]));
    assert_eq!(entropy_seed(Some(&packet[..0])), None);
}

#[test]
fn pci_bars() {
    assert_eq!(bar_register_value(Bar::Io { port: 0xc000 }), 0xc001);
    assert_eq!(
        bar_register_value(Bar::Memory32 { address: 0xfe00_0000, size: 0x1000, prefetchable: true }),
        0xfe00_0008
    );
    assert_eq!(
        bar_register_value(Bar::Memory64 { address: 0x8_0000_0000, size: 0x1000, prefetchable: false }),
        0x8_0000_0004
    );
    assert_eq!(
        bar_register_value(Bar::Memory64 { address: 0x8_0000_0000, size: 0x1000, prefetchable: true }),
        0x8_0000_000c
    );
    assert_eq!(bar_mapping(None), None);
    assert_eq!(bar_mapping(Some(Bar::Io { port: 1 })), None);
    assert_eq!(
        bar_mapping(Some(Bar::Memory32 { address: 0x1000, size: 0x10, prefetchable: true })),
        Some((0x1000, 0x10))
    );
    assert_eq!(
        bar_mapping(Some(Bar::Memory32 { address: 0xfebf_0000, size: 0x1000, prefetchable: false })),
        Some((0xfebf_0000, 0x1000))
    );
    assert_eq!(bar_mapping(Some(Bar::Memory32 { address: 0, size: 0x10, prefetchable: false })), None);
    assert_eq!(bar_mapping(Some(Bar::Memory64 { address: 0, size: 0x10, prefetchable: true })), None);
    assert_eq!(
        bar_mapping(Some(Bar::Memory64 { address: 0x8000, size: 0x10, prefetchable: true })),
        Some((0x8000, 0x10))
    );
    assert!(irq_in_use(11));
    assert!(!irq_in_use(0));
    assert!(!irq_in_use(255));
    assert_eq!(next_bar_slot(0, Some(Bar::Memory64 { address: 1, size: 1, prefetchable: false })), 2);
    assert_eq!(next_bar_slot(1, None), 2);
}

#[test]
fn decimal_numbers() {
    assert_eq!(parse_unsigned("65535", 0xffff), Some(65535));
    assert_eq!(parse_unsigned("65536", 0xffff), None);
    assert_eq!(parse_unsigned("+7", 10), Some(7));
    assert_eq!(parse_unsigned("", 10), None);
    assert_eq!(parse_unsigned("+", 10), None);
    assert_eq!(parse_unsigned("1a", 100), None);
    assert_eq!(parse_unsigned("007", 10), Some(7));
}
