use hermit_kernel::drivers::nvme::{
    check_create_io_queue_pair, AllocLayout, NvmeAllocError, NvmeAllocator, SysNvmeError,
};

#[test]
fn queue_pair_admission() {
    let namespaces = vec![1u32, 2, 5];
    assert_eq!(check_create_io_queue_pair(&namespaces, 5, 0, 4), Ok(()));
    assert_eq!(
        check_create_io_queue_pair(&namespaces, 3, 0, 4),
        Err(SysNvmeError::NamespaceDoesNotExist)
    );
    assert_eq!(
        check_create_io_queue_pair(&namespaces, 2, 4, 4),
        Err(SysNvmeError::MaxNumberOfQueuesReached)
    );
    assert_eq!(check_create_io_queue_pair(&namespaces, 2, 3, 4), Ok(()));
    assert_eq!(
        check_create_io_queue_pair(&Vec::new(), 1, 0, 4),
        Err(SysNvmeError::NamespaceDoesNotExist)
    );
}

#[test]
fn allocator_gives_back_recorded_layouts() {
    let mut allocator = NvmeAllocator::new();
    let page = AllocLayout { size: 4096, align: 4096 };
    let small = AllocLayout { size: 64, align: 8 };
    allocator.allocate(0x1000, page);
    allocator.allocate(0x8000, small);
    assert_eq!(allocator.deallocate(0x8000), Ok(small));
    assert_eq!(allocator.deallocate(0x8000), Err(NvmeAllocError::UnknownAddress(0x8000)));
    assert_eq!(allocator.deallocate(0x2000), Err(NvmeAllocError::UnknownAddress(0x2000)));
    allocator.allocate(0x1000, small);
    assert_eq!(allocator.deallocate(0x1000), Ok(small));
}
