use hermit_kernel::drivers::balloon::allocation::{BalloonAllocation, ChunkLayout, ChunkRelease, ShrinkResult};
use hermit_kernel::drivers::balloon::driver::{
    ilog2, oom_deflate, oom_pages_to_recover, AllocateChunks, BalloonCounters, VOLUNTARY_INFLATE_INTERVAL_MICROS,
};
use hermit_kernel::drivers::balloon::queue::{page_indices_from_bytes, page_indices_to_bytes};
use hermit_kernel::drivers::balloon::storage::BalloonStorage;
use hermit_kernel::drivers::balloon::DeflateBalloonOnOom;

fn chunk(addr: u64, first_page: u64, n: u64) -> BalloonAllocation {
    let phys: Vec<u64> = (0..n).map(|i| (first_page + i) * 4096).collect();
    BalloonAllocation::try_allocate(Some(addr), &phys).unwrap()
}

#[test]
fn chunk_sizes_halve_after_failures() {
    assert_eq!(ilog2(1), 0);
    assert_eq!(ilog2(10), 3);
    assert_eq!(ilog2(u32::MAX), 31);
    let mut a = AllocateChunks::new(10);
    assert_eq!(a.next_chunk_size(), Some(8));
    a.chunk_allocated();
    assert_eq!(a.num_allocated(), 8);
    a.chunk_failed();
    assert_eq!(a.next_chunk_size(), Some(4));
    a.chunk_failed();
    assert_eq!(a.next_chunk_size(), Some(2));
    a.chunk_allocated();
    assert_eq!(a.next_chunk_size(), None);
    assert_eq!(a.num_allocated(), 10);
    let mut b = AllocateChunks::new(1);
    b.chunk_failed();
    assert_eq!(b.next_chunk_size(), None);
    assert_eq!(b.num_allocated(), 0);
}

#[test]
fn page_indices_round_trip() {
    let indices = [0u32, 1, 0x1234_5678, u32::MAX];
    let bytes = page_indices_to_bytes(&indices);
    assert_eq!(&bytes[8..12], &[0x78, 0x56, 0x34, 0x12]);
    assert_eq!(page_indices_from_bytes(&bytes), indices.to_vec());
}

#[test]
fn chunk_pages_and_layout() {
    assert!(BalloonAllocation::try_allocate(None, &[0x1000]).is_err());
    let c = chunk(0x4000_0000, 0x40000, 3);
    assert_eq!(c.phys_page_indices(), vec![0x40000, 0x40001, 0x40002]);
    assert_eq!(c.num_pages_allocated(), Some(3));
    assert_eq!(c.current_layout(), Some(ChunkLayout { size: 3 * 4096, align: 4096 }));
    assert_eq!(BalloonAllocation::layout(2), ChunkLayout { size: 8192, align: 4096 });
    assert!(!c.is_empty());
    assert_eq!(c.num_available_for_deflation(), 3);
    assert!(c.pages_queued_for_deflation().is_empty());
}

#[test]
fn deflating_part_of_a_chunk_shrinks_it() {
    let mut c = chunk(0x4000_0000, 0x40000, 3);
    assert_eq!(c.mark_queued_for_deflation(2), vec![0x40001, 0x40002]);
    assert_eq!(c.pages_queued_for_deflation(), &[0x40001, 0x40002]);
    assert!(c.can_shrink_by_pages(&[0x40002]));
    assert!(!c.can_shrink_by_pages(&[0x40001]));
    let (result, release) = c.shrink(&[0x40001, 0x40002]);
    assert_eq!(result, ShrinkResult::PagesRemain);
    assert_eq!(
        release,
        ChunkRelease::Shrink {
            addr: 0x4000_0000,
            old_layout: ChunkLayout { size: 3 * 4096, align: 4096 },
            new_size: 4096
        }
    );
    assert_eq!(c.phys_page_indices(), vec![0x40000]);
}

#[test]
fn deflating_a_whole_chunk_frees_it() {
    let mut c = chunk(0x5000_0000, 0x50000, 2);
    c.mark_queued_for_deflation(2);
    let (result, release) = c.shrink(&[0x50000, 0x50001]);
    assert_eq!(result, ShrinkResult::Deallocated);
    assert_eq!(
        release,
        ChunkRelease::Free { addr: 0x5000_0000, layout: ChunkLayout { size: 8192, align: 4096 } }
    );
    assert!(c.is_empty());
}

#[test]
fn storage_deflates_most_recent_chunks_first() {
    let mut s = BalloonStorage::new();
    assert_eq!(s.push_chunk(chunk(0x1000_0000, 0x10000, 2)), vec![0x10000, 0x10001]);
    assert_eq!(s.push_chunk(chunk(0x2000_0000, 0x20000, 2)), vec![0x20000, 0x20001]);
    let marked = s.mark_pages_for_deflation(3);
    assert_eq!(marked, vec![vec![0x20000, 0x20001], vec![0x10001]]);
    let releases = s.shrink_chunks(marked);
    assert_eq!(
        releases,
        vec![
            ChunkRelease::Free { addr: 0x2000_0000, layout: ChunkLayout { size: 8192, align: 4096 } },
            ChunkRelease::Shrink {
                addr: 0x1000_0000,
                old_layout: ChunkLayout { size: 8192, align: 4096 },
                new_size: 4096
            },
        ]
    );
}

#[test]
fn balloon_counters() {
    let mut c = BalloonCounters::new();
    assert_eq!(c.num_pages_changed(100), Some(100));
    assert_eq!(c.num_pages_changed(100), None);
    let adj = c.adjust_balloon_size(Some(100), 0, 0);
    assert_eq!(adj.requested_inflation, Some(100));
    assert_eq!(adj.voluntary_inflation, Some(524288));
    c.inflated(100);
    assert_eq!(c.acknowledge(0, 60), Some(60));
    assert_eq!(c.acknowledge(0, 0), None);
    assert_eq!(c.num_in_balloon, 60);
    assert_eq!(c.num_pending_inflation, 40);
    // Shrinking requests are ignored.
    let adj = c.adjust_balloon_size(Some(10), 1, 2000);
    assert_eq!(adj.requested_inflation, None);
    assert_eq!(adj.voluntary_inflation, None);
    let adj = c.adjust_balloon_size(Some(150), 2000 * VOLUNTARY_INFLATE_INTERVAL_MICROS, 2000);
    assert_eq!(adj.requested_inflation, Some(50));
    assert_eq!(adj.voluntary_inflation, Some(524288));
    c.deflated(20);
    assert_eq!(c.num_pending_deflation, 20);
    assert_eq!(c.num_deflatable_for_oom(30), 10);
    assert_eq!(c.deflate_for_oom(30, 4), Ok(4));
    assert_eq!(c.deflate_for_oom(30, 40), Ok(10));
    assert_eq!(c.deflate_for_oom(60, 4), Err(()));
    assert_eq!(c.acknowledge(20, 0), Some(40));
}

#[test]
fn out_of_memory_recovery_size() {
    assert_eq!(oom_pages_to_recover(1), 2);
    assert_eq!(oom_pages_to_recover(4096), 2);
    assert_eq!(oom_pages_to_recover(4097), 3);
    assert_eq!(oom_pages_to_recover(4096usize << 32), 1);
    let _handler = DeflateBalloonOnOom::new();
}

#[test]
fn shrinking_marked_chunks_leaves_the_rest() {
    let mut s = BalloonStorage::new();
    s.push_chunk(chunk(0x1000_0000, 0x10000, 3));
    s.push_chunk(chunk(0x2000_0000, 0x20000, 2));
    let marked = s.mark_pages_for_deflation(3);
    assert_eq!(marked, vec![vec![0x20000, 0x20001], vec![0x10002]]);
    s.shrink_chunks(marked);
    // The second chunk is gone, the first keeps its first two pages, none queued.
    assert_eq!(s.mark_pages_for_deflation(10), vec![vec![0x10000, 0x10001]]);
}

#[test]
fn out_of_memory_deflation() {
    let mut s = BalloonStorage::new();
    s.push_chunk(chunk(0x1000_0000, 0x10000, 2));
    s.push_chunk(chunk(0x2000_0000, 0x20000, 2));
    let mut c = BalloonCounters::new();
    c.inflated(4);
    assert_eq!(c.acknowledge(0, 4), Some(4));
    // The host asks for one page; three may go, the allocation needs two.
    let (groups, releases) = oom_deflate(&mut c, &mut s, 1, 2).unwrap();
    assert_eq!(groups, vec![vec![0x20000, 0x20001]]);
    assert_eq!(
        releases,
        vec![ChunkRelease::Free { addr: 0x2000_0000, layout: ChunkLayout { size: 8192, align: 4096 } }]
    );
    assert_eq!(c.num_pending_deflation, 2);
    assert_eq!(c.num_in_balloon, 4);
    // One more page may go.
    let (groups, releases) = oom_deflate(&mut c, &mut s, 1, 5).unwrap();
    assert_eq!(groups, vec![vec![0x10001]]);
    assert_eq!(
        releases,
        vec![ChunkRelease::Shrink {
            addr: 0x1000_0000,
            old_layout: ChunkLayout { size: 8192, align: 4096 },
            new_size: 4096
        }]
    );
    assert_eq!(c.num_pending_deflation, 3);
    // Nothing is left above what the host asks for.
    assert_eq!(oom_deflate(&mut c, &mut s, 1, 5), Err(()));
    assert_eq!(c.num_pending_deflation, 3);
}
