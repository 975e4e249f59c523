use hermit_kernel::drivers::blk::{
    check_status, complete_read, possible_cores, queue_count, vq_index, BlkDevice, F_BLK_SIZE,
    F_FLUSH, F_MQ, F_RO, SECTOR_SIZE, STATUS_IOERR, STATUS_OK, STATUS_UNSUPP,
};
use hermit_kernel::errno::Errno;

#[test]
fn device_reads_its_configuration() {
    let d = BlkDevice::new(F_BLK_SIZE | F_RO, 100, 4096).unwrap();
    assert_eq!(d.capacity(), 100);
    assert_eq!(d.block_size(), 4096);
    assert!(d.is_read_only());
    assert!(!d.needs_flush());
    let d = BlkDevice::new(F_FLUSH, 8, 4096).unwrap();
    assert_eq!(d.block_size(), SECTOR_SIZE as u32);
    assert!(!d.is_read_only());
    assert!(d.needs_flush());
}

#[test]
fn transfers_are_checked() {
    let d = BlkDevice::new(0, 10, 0).unwrap();
    assert_eq!(d.checked_len(0, 512), Ok(512));
    assert_eq!(d.checked_len(9, 512), Ok(512));
    assert_eq!(d.checked_len(0, 10 * 512), Ok(5120));
    assert_eq!(d.checked_len(0, 0), Err(Errno::Inval));
    assert_eq!(d.checked_len(0, 100), Err(Errno::Inval));
    assert_eq!(d.checked_len(10, 512), Err(Errno::Inval));
    assert_eq!(d.checked_len(usize::MAX, 512), Err(Errno::Inval));
}

#[test]
fn writes_to_read_only_devices_are_refused() {
    let d = BlkDevice::new(F_RO, 10, 0).unwrap();
    assert_eq!(d.check_write(0, 512), Err(Errno::Rofs));
    assert_eq!(d.check_write(0, 1), Err(Errno::Inval));
    let d = BlkDevice::new(0, 10, 0).unwrap();
    assert_eq!(d.check_write(1, 1024), Ok(1024));
}

#[test]
fn queues_follow_offer_and_cores() {
    assert_eq!(queue_count(F_MQ, 4, 8), 4);
    assert_eq!(queue_count(F_MQ, 16, 8), 8);
    assert_eq!(queue_count(F_MQ, 0, 8), 1);
    assert_eq!(queue_count(0, 16, 8), 1);
    assert_eq!(queue_count(F_MQ, 4, 1), 1);
    assert_eq!(possible_cores(4), 4);
}

#[test]
fn cores_share_queues_round_robin() {
    assert_eq!(vq_index(0, 3), 0);
    assert_eq!(vq_index(4, 3), 1);
    assert_eq!(vq_index(5, 1), 0);
}

#[test]
fn status_bytes_map_to_errors() {
    assert_eq!(check_status(Some(STATUS_OK)), Ok(()));
    assert_eq!(check_status(Some(STATUS_UNSUPP)), Err(Errno::Nosys));
    assert_eq!(check_status(Some(STATUS_IOERR)), Err(Errno::Io));
    assert_eq!(check_status(Some(42)), Err(Errno::Io));
    assert_eq!(check_status(None), Err(Errno::Io));
}

#[test]
fn reads_complete_only_when_all_is_well() {
    let data = [1u8, 2, 3, 4];
    let mut buf = [0u8; 4];
    assert_eq!(complete_read(None, Some(STATUS_OK), &mut buf), Err(Errno::Io));
    assert_eq!(complete_read(Some(&data[..]), Some(STATUS_UNSUPP), &mut buf), Err(Errno::Nosys));
    assert_eq!(complete_read(Some(&data[..3]), Some(STATUS_OK), &mut buf), Err(Errno::Io));
    assert_eq!(buf, [0u8; 4]);
    assert_eq!(complete_read(Some(&data[..]), Some(STATUS_OK), &mut buf), Ok(()));
    assert_eq!(buf, data);
}

#[test]
fn oversized_capacity_is_refused() {
    if usize::MAX as u64 == u64::MAX {
        assert!(BlkDevice::new(0, u64::MAX, 0).is_some());
    } else {
        assert!(BlkDevice::new(0, u64::MAX, 0).is_none());
    }
}
