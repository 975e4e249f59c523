use hermit_kernel::drivers::net::rtl8139::{check_tcr, reset_step, rtl8139_bar, ResetStep, RTL8139Error};
use hermit_kernel::drivers::pci::Bar;

#[test]
fn register_bar_choice() {
    let mem = Some(Bar::Memory32 { address: 0xfebf_0000, size: 0x100, prefetchable: false });
    let io = Some(Bar::Io { port: 0xc000 });
    assert_eq!(rtl8139_bar(&[io, mem, None, None, None, None]), Some(1));
    assert_eq!(rtl8139_bar(&[mem, io, mem, None, None, None]), Some(2));
    assert_eq!(rtl8139_bar(&[io, None, None, None, None, None]), None);
}

#[test]
fn chip_presence() {
    assert_eq!(check_tcr(0x00ff_ffff), Err(RTL8139Error::InitFailed));
    assert_eq!(check_tcr(0x0300_0700), Ok(()));
}

#[test]
fn reset_wait_steps() {
    assert_eq!(reset_step(0x10, 5), ResetStep::Retry(4));
    assert_eq!(reset_step(0x00, 5), ResetStep::Done);
    assert_eq!(reset_step(0x10, 0), ResetStep::Failed(RTL8139Error::ResetFailed));
    assert_eq!(reset_step(0x00, 0), ResetStep::Failed(RTL8139Error::ResetFailed));
}
