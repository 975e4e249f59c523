use vstd::prelude::*;
use vstd::arithmetic::power2::pow2;

use super::allocation::{ChunkRelease, BALLOON_PAGE_SIZE};
use super::storage::{
    group_total, group_views, lemma_group_total_plan, lemma_marking_plan, lemma_total_pages_same_sizes, lemma_shrink_marked_chunks, marked,
    marking_plan, min_int, nothing_queued, shrink_plan, total_pages, unqueued_total,
    BalloonStorage,
};

verus! {

/// Minimum interval between voluntary inflation attempts in microseconds.
pub const VOLUNTARY_INFLATE_INTERVAL_MICROS: u64 = 1_000_000;

/// Maximum number of 4 KiB pages voluntarily inflated per attempt (2 GiB).
pub const VOLUNTARY_INFLATE_MAX_NUM_PAGES: u32 = 524288;

/// The largest exponent `e` with `2^e <= n`.
pub fn ilog2(n: u32) -> (e: u32)
    requires
        n > 0,
    ensures
        e < 32,
        pow2(e as nat) <= n < pow2((e + 1) as nat),
{
    let mut e: u32 = 0;
    let mut v: u32 = n;
    proof {
        vstd::arithmetic::power2::lemma2_to64();
        assert(n as nat / pow2(0) == n);
    }
    while v > 1
        invariant
            0 <= e < 32,
            v >= 1,
            v == n as nat / pow2(e as nat),
            n > 0,
        decreases v,
    {
        proof {
            vstd::arithmetic::power2::lemma_pow2_unfold((e + 1) as nat);
            vstd::arithmetic::power2::lemma_pow2_pos(e as nat);
            vstd::arithmetic::div_mod::lemma_div_denominator(n as int, pow2(e as nat) as int, 2);
            assert(pow2((e + 1) as nat) == pow2(e as nat) * 2);
            if e == 31 {
                vstd::arithmetic::power2::lemma2_to64();
                assert(pow2(31) == 0x8000_0000);
                vstd::arithmetic::div_mod::lemma_div_is_ordered(n as int, 0xffff_ffff, 0x8000_0000);
                assert(false);
            }
        }
        v = v / 2;
        e = e + 1;
    }
    proof {
        vstd::arithmetic::power2::lemma_pow2_pos(e as nat);
        vstd::arithmetic::power2::lemma_pow2_unfold((e + 1) as nat);
        vstd::arithmetic::div_mod::lemma_fundamental_div_mod(n as int, pow2(e as nat) as int);
        vstd::arithmetic::div_mod::lemma_mod_bound(n as int, pow2(e as nat) as int);
    }
    e
}

/// Progress of filling the balloon with `target` pages: chunk sizes are
/// powers of two, starting with the largest one not above `target`; after a
/// failed allocation the chunk size is halved, and a failure at a single page
/// ends the attempt.
pub struct AllocateChunks {
    current_exponent: u32,
    num_remaining: u32,
    target_num_pages: u32,
    finished: bool,
}

impl AllocateChunks {
    pub closed spec fn exponent(&self) -> nat {
        self.current_exponent as nat
    }

    /// Pages still to be allocated.
    pub closed spec fn remaining(&self) -> nat {
        self.num_remaining as nat
    }

    /// Pages asked for.
    pub closed spec fn target(&self) -> nat {
        self.target_num_pages as nat
    }

    /// Whether an allocation of a single page failed.
    pub closed spec fn is_finished(&self) -> bool {
        self.finished
    }

    pub open spec fn wf(&self) -> bool {
        &&& self.exponent() < 32
        &&& self.remaining() <= self.target()
    }

    /// The size of the next chunk to allocate, while pages remain.
    pub open spec fn spec_next(&self) -> Option<nat> {
        if self.remaining() == 0 || self.is_finished() {
            None
        } else {
            Some(pow2(self.exponent()))
        }
    }

    pub fn new(target_num_pages: u32) -> (r: Self)
        requires
            target_num_pages > 0,
        ensures
            r.wf(),
            r.target() == target_num_pages,
            r.remaining() == target_num_pages,
            !r.is_finished(),
            pow2(r.exponent()) <= target_num_pages < pow2(r.exponent() + 1),
    {
        AllocateChunks {
            current_exponent: ilog2(target_num_pages),
            num_remaining: target_num_pages,
            target_num_pages,
            finished: false,
        }
    }

    /// The number of pages of the next chunk to allocate, `None` when done.
    pub fn next_chunk_size(&self) -> (r: Option<u32>)
        requires
            self.wf(),
        ensures
            r matches Some(n) ==> self.spec_next() == Some(n as nat),
            r is None ==> self.spec_next() is None,
    {
        if self.num_remaining == 0 || self.finished {
            None
        } else {
            proof {
                vstd::bits::lemma_u32_pow2_no_overflow(self.current_exponent as nat);
                vstd::bits::lemma_u32_shl_is_mul(1, self.current_exponent);
            }
            Some(1u32 << self.current_exponent)
        }
    }

    /// Records that the chunk of [`Self::next_chunk_size`] pages was allocated.
    pub fn chunk_allocated(&mut self)
        requires
            old(self).wf(),
            old(self).spec_next() matches Some(n) && n <= old(self).remaining(),
        ensures
            final(self).wf(),
            final(self).remaining() == old(self).remaining() - pow2(old(self).exponent()),
            final(self).exponent() == old(self).exponent(),
            final(self).target() == old(self).target(),
            final(self).is_finished() == old(self).is_finished(),
    {
        proof {
            vstd::bits::lemma_u32_pow2_no_overflow(self.current_exponent as nat);
            vstd::bits::lemma_u32_shl_is_mul(1, self.current_exponent);
        }
        self.num_remaining = self.num_remaining - (1u32 << self.current_exponent);
    }

    /// Records that the chunk of [`Self::next_chunk_size`] pages could not be
    /// allocated: the chunk size is halved, or the attempt ends.
    pub fn chunk_failed(&mut self)
        requires
            old(self).wf(),
            old(self).spec_next() is Some,
        ensures
            final(self).wf(),
            final(self).remaining() == old(self).remaining(),
            final(self).target() == old(self).target(),
            old(self).exponent() == 0 ==> final(self).is_finished() && final(self).exponent() == 0,
            old(self).exponent() > 0 ==> !final(self).is_finished() && final(self).exponent()
                == old(self).exponent() - 1,
    {
        if self.current_exponent == 0 {
            self.finished = true;
        } else {
            self.current_exponent = self.current_exponent - 1;
        }
    }

    /// The number of pages allocated so far.
    pub fn num_allocated(&self) -> (r: u32)
        requires
            self.wf(),
        ensures
            r == self.target() - self.remaining(),
    {
        self.target_num_pages - self.num_remaining
    }
}

/// What the driver decides to do when it adjusts the balloon's size.
#[derive(Clone, Copy, Debug, PartialEq, Eq)]
pub struct SizeAdjustment {
    /// Pages to inflate because the host asked for a larger balloon.
    pub requested_inflation: Option<u32>,
    /// How many pages to inflate voluntarily, when a voluntary inflation is
    /// due: always [`VOLUNTARY_INFLATE_MAX_NUM_PAGES`], which inflation
    /// allocates as far as memory allows.
    pub voluntary_inflation: Option<u32>,
}

/// The page counts the balloon driver keeps.
pub struct BalloonCounters {
    /// Pages in the balloon, acknowledged by the host.
    pub num_in_balloon: u32,
    /// Pages sent into the inflate queue, not yet acknowledged.
    pub num_pending_inflation: u32,
    /// Pages sent into the deflate queue, not yet acknowledged.
    pub num_pending_deflation: u32,
    /// The balloon size the host asked for last.
    pub num_targeted: u32,
    /// Time stamp of the last voluntary inflation.
    pub last_voluntary_inflate: u64,
}

impl BalloonCounters {
    /// No more pages are pending deflation than are in the balloon.
    pub open spec fn wf(&self) -> bool {
        self.num_pending_deflation <= self.num_in_balloon
    }

    pub fn new() -> (r: Self)
        ensures
            r.wf(),
            r.num_in_balloon == 0 && r.num_pending_inflation == 0 && r.num_pending_deflation == 0
                && r.num_targeted == 0 && r.last_voluntary_inflate == 0,
    {
        BalloonCounters {
            num_in_balloon: 0,
            num_pending_inflation: 0,
            num_pending_deflation: 0,
            num_targeted: 0,
            last_voluntary_inflate: 0,
        }
    }

    /// Takes note of the balloon size `new_num_pages` the host asks for and
    /// returns it if it differs from the one noted before.
    pub fn num_pages_changed(&mut self, new_num_pages: u32) -> (r: Option<u32>)
        ensures
            final(self).num_targeted == new_num_pages,
            r == (if new_num_pages == old(self).num_targeted {
                None::<u32>
            } else {
                Some(new_num_pages)
            }),
            final(self).num_in_balloon == old(self).num_in_balloon,
            final(self).num_pending_inflation == old(self).num_pending_inflation,
            final(self).num_pending_deflation == old(self).num_pending_deflation,
            final(self).last_voluntary_inflate == old(self).last_voluntary_inflate,
    {
        if new_num_pages == self.num_targeted {
            None
        } else {
            self.num_targeted = new_num_pages;
            Some(new_num_pages)
        }
    }

    /// Accounts for the host's acknowledgement of `num_deflated` deflated and
    /// `num_inflated` inflated pages; returns the new balloon size to report
    /// to the device when anything was acknowledged.
    pub fn acknowledge(&mut self, num_deflated: usize, num_inflated: usize) -> (r: Option<u32>)
        requires
            old(self).wf(),
            num_deflated <= old(self).num_pending_deflation,
            num_inflated <= old(self).num_pending_inflation,
            old(self).num_in_balloon - num_deflated + num_inflated <= u32::MAX,
        ensures
            final(self).wf(),
            final(self).num_pending_deflation == old(self).num_pending_deflation - num_deflated,
            final(self).num_pending_inflation == old(self).num_pending_inflation - num_inflated,
            final(self).num_in_balloon == old(self).num_in_balloon - num_deflated + num_inflated,
            final(self).num_targeted == old(self).num_targeted,
            final(self).last_voluntary_inflate == old(self).last_voluntary_inflate,
            r == (if num_deflated > 0 || num_inflated > 0 {
                Some(final(self).num_in_balloon)
            } else {
                None::<u32>
            }),
    {
        let mut changed = false;
        if num_deflated > 0 {
            self.num_pending_deflation = self.num_pending_deflation - num_deflated as u32;
            self.num_in_balloon = self.num_in_balloon - num_deflated as u32;
            changed = true;
        }
        if num_inflated > 0 {
            self.num_pending_inflation = self.num_pending_inflation - num_inflated as u32;
            self.num_in_balloon = self.num_in_balloon + num_inflated as u32;
            changed = true;
        }
        if changed {
            Some(self.num_in_balloon)
        } else {
            None
        }
    }

    /// Decides how to adjust the balloon: `new_target` is what
    /// [`Self::num_pages_changed`] returned, `now` the current time stamp and
    /// `frequency` the processor frequency in MHz. Shrinking requests of the
    /// host are ignored, since the balloon only deflates when memory runs out.
    pub fn adjust_balloon_size(&mut self, new_target: Option<u32>, now: u64, frequency: u16) -> (r:
        SizeAdjustment)
        requires
            old(self).wf(),
            old(self).num_in_balloon + old(self).num_pending_inflation <= u32::MAX,
            old(self).last_voluntary_inflate + frequency * VOLUNTARY_INFLATE_INTERVAL_MICROS
                <= u64::MAX,
        ensures
            final(self).wf(),
            r.requested_inflation == (match new_target {
                Some(t) => if t > old(self).num_in_balloon + old(self).num_pending_inflation
                    && t >= old(self).num_in_balloon - old(self).num_pending_deflation {
                    Some(
                        (t - (old(self).num_in_balloon + old(self).num_pending_inflation)) as u32,
                    )
                } else {
                    None::<u32>
                },
                None => None::<u32>,
            }),
            r.voluntary_inflation == (if now >= old(self).last_voluntary_inflate + frequency
                * VOLUNTARY_INFLATE_INTERVAL_MICROS {
                Some(VOLUNTARY_INFLATE_MAX_NUM_PAGES)
            } else {
                None::<u32>
            }),
            final(self).last_voluntary_inflate == (if r.voluntary_inflation is Some {
                now
            } else {
                old(self).last_voluntary_inflate
            }),
            final(self).num_in_balloon == old(self).num_in_balloon,
            final(self).num_pending_inflation == old(self).num_pending_inflation,
            final(self).num_pending_deflation == old(self).num_pending_deflation,
            final(self).num_targeted == old(self).num_targeted,
    {
        let mut requested_inflation = None;
        if let Some(new_target_num_pages) = new_target {
            if new_target_num_pages < self.num_in_balloon - self.num_pending_deflation {
                // Deflation is only done when memory runs out.
            } else if new_target_num_pages > self.num_in_balloon + self.num_pending_inflation {
                requested_inflation = Some(
                    new_target_num_pages - (self.num_in_balloon + self.num_pending_inflation),
                );
            }
        }
        let due = now >= self.last_voluntary_inflate + (frequency as u64)
            * VOLUNTARY_INFLATE_INTERVAL_MICROS;
        let voluntary_inflation = if due {
            self.last_voluntary_inflate = now;
            Some(VOLUNTARY_INFLATE_MAX_NUM_PAGES)
        } else {
            None
        };
        SizeAdjustment { requested_inflation, voluntary_inflation }
    }

    /// Accounts for `num_pages_inflated` pages sent into the inflate queue.
    pub fn inflated(&mut self, num_pages_inflated: usize)
        requires
            old(self).num_pending_inflation + num_pages_inflated <= u32::MAX,
        ensures
            final(self).num_pending_inflation == old(self).num_pending_inflation
                + num_pages_inflated,
            final(self).num_in_balloon == old(self).num_in_balloon,
            final(self).num_pending_deflation == old(self).num_pending_deflation,
            final(self).num_targeted == old(self).num_targeted,
            final(self).last_voluntary_inflate == old(self).last_voluntary_inflate,
    {
        self.num_pending_inflation = self.num_pending_inflation + num_pages_inflated as u32;
    }

    /// Accounts for `num_pages_to_deflate` pages sent into the deflate queue.
    pub fn deflated(&mut self, num_pages_to_deflate: u32)
        requires
            old(self).wf(),
            num_pages_to_deflate <= old(self).num_in_balloon - old(self).num_pending_deflation,
        ensures
            final(self).wf(),
            final(self).num_pending_deflation == old(self).num_pending_deflation
                + num_pages_to_deflate,
            final(self).num_in_balloon == old(self).num_in_balloon,
            final(self).num_pending_inflation == old(self).num_pending_inflation,
            final(self).num_targeted == old(self).num_targeted,
            final(self).last_voluntary_inflate == old(self).last_voluntary_inflate,
    {
        self.num_pending_deflation = self.num_pending_deflation + num_pages_to_deflate;
    }

    /// Pages that may be deflated to recover from running out of memory: those
    /// in the balloon above what the host asks for (`device_num_pages`) and not
    /// pending deflation already.
    pub fn num_deflatable_for_oom(&self, device_num_pages: u32) -> (r: u32)
        ensures
            r == spec_saturating_sub(
                spec_saturating_sub(self.num_in_balloon as int, device_num_pages as int),
                self.num_pending_deflation as int,
            ),
    {
        self.num_in_balloon.saturating_sub(device_num_pages).saturating_sub(
            self.num_pending_deflation,
        )
    }

    /// The number of pages to deflate after an allocation of
    /// `failed_alloc_num_pages` pages failed, or `Err` when none can be.
    pub fn deflate_for_oom(&self, device_num_pages: u32, failed_alloc_num_pages: u32) -> (r:
        Result<u32, ()>)
        ensures
            ({
                let d = spec_saturating_sub(
                    spec_saturating_sub(self.num_in_balloon as int, device_num_pages as int),
                    self.num_pending_deflation as int,
                );
                &&& d > 0 ==> r == Ok::<u32, ()>(
                    if d <= failed_alloc_num_pages {
                        d as u32
                    } else {
                        failed_alloc_num_pages
                    },
                )
                &&& d == 0 ==> r == Err::<u32, ()>(())
            }),
    {
        let num_deflatable = self.num_deflatable_for_oom(device_num_pages);
        if num_deflatable > 0 {
            if num_deflatable <= failed_alloc_num_pages {
                Ok(num_deflatable)
            } else {
                Ok(failed_alloc_num_pages)
            }
        } else {
            Err(())
        }
    }
}

/// `a - b`, or 0 when `b` is larger.
pub open spec fn spec_saturating_sub(a: int, b: int) -> int {
    if a >= b {
        a - b
    } else {
        0
    }
}

/// The number of pages to recover when an allocation of `size` bytes failed:
/// enough 4 KiB pages to cover it, taken as a `u32` (truncated to its low 32
/// bits), plus one for the allocator's tag. Where the truncated count is
/// `u32::MAX`, adding the tag's page overflows.
pub fn oom_pages_to_recover(size: usize) -> (r: u32)
    requires
        ((size + BALLOON_PAGE_SIZE - 1) / (BALLOON_PAGE_SIZE as int)) % 0x1_0000_0000 < u32::MAX,
    ensures
        r == ((size + BALLOON_PAGE_SIZE - 1) / (BALLOON_PAGE_SIZE as int)) % 0x1_0000_0000 + 1,
{
    let pages: usize = size / BALLOON_PAGE_SIZE + if size % BALLOON_PAGE_SIZE == 0 {
        0
    } else {
        1
    };
    let wide: u64 = pages as u64;
    let truncated: u32 = wide as u32;
    assert(truncated == wide % 0x1_0000_0000) by (bit_vector)
        requires
            truncated == wide as u32,
    ;
    truncated + 1
}

/// A copy of the groups of page indices `groups`.
fn copy_groups(groups: &Vec<Vec<u32>>) -> (r: Vec<Vec<u32>>)
    ensures
        group_views(r@) == group_views(groups@),
{
    let mut r: Vec<Vec<u32>> = Vec::new();
    let mut i: usize = 0;
    while i < groups.len()
        invariant
            i <= groups@.len(),
            r@.len() == i,
            forall|k: int| 0 <= k < i ==> (#[trigger] r@[k])@ == groups@[k]@,
        decreases groups@.len() - i,
    {
        let g = &groups[i];
        let mut c: Vec<u32> = Vec::new();
        let mut j: usize = 0;
        while j < g.len()
            invariant
                j <= g@.len(),
                c@ == g@.subrange(0, j as int),
            decreases g@.len() - j,
        {
            c.push(g[j]);
            j += 1;
            assert(c@ =~= g@.subrange(0, j as int));
        }
        assert(c@ =~= g@);
        r.push(c);
        i += 1;
    }
    assert(group_views(r@) =~= group_views(groups@));
    r
}

/// Deflates the balloon to recover from running out of memory after an
/// allocation of `failed_alloc_num_pages` pages failed, where the host asks
/// for `device_num_pages` pages in the balloon. Where pages may be deflated
/// ([`BalloonCounters::num_deflatable_for_oom`]), as many of them as the
/// allocation needed, at most, are marked for deflation from the top of the
/// storage, counted as pending deflation, and taken out of the storage at
/// once (the host need not be told first). Returns the groups of page
/// indices to send into the deflate queue and what each shrink of a chunk
/// asks of the allocator, or `Err` where nothing may be deflated.
pub fn oom_deflate(
    counters: &mut BalloonCounters,
    storage: &mut BalloonStorage,
    device_num_pages: u32,
    failed_alloc_num_pages: u32,
) -> (r: Result<(Vec<Vec<u32>>, Vec<ChunkRelease>), ()>)
    requires
        old(counters).wf(),
        old(storage).wf(),
        nothing_queued(old(storage)@),
    ensures
        ({
            let d = spec_saturating_sub(
                spec_saturating_sub(old(counters).num_in_balloon as int, device_num_pages as int),
                old(counters).num_pending_deflation as int,
            );
            let n = min_int(d, failed_alloc_num_pages as int);
            let ov = old(storage)@;
            let k = ov.len();
            let plan = marking_plan(old(storage).chunks(), n);
            &&& d == 0 ==> r is Err && *final(counters) == *old(counters) && *final(storage) == *old(
                storage,
            )
            &&& d > 0 ==> (r matches Ok((groups, releases)) && {
                &&& final(counters).wf()
                &&& final(counters).num_pending_deflation == old(counters).num_pending_deflation + n
                &&& final(counters).num_in_balloon == old(counters).num_in_balloon
                &&& final(counters).num_pending_inflation == old(counters).num_pending_inflation
                &&& final(counters).num_targeted == old(counters).num_targeted
                &&& final(counters).last_voluntary_inflate == old(counters).last_voluntary_inflate
                &&& final(storage).wf()
                &&& groups@.len() == plan.len()
                &&& forall|i: int|
                    0 <= i < plan.len() ==> (#[trigger] groups@[i])@ == ov[k - 1 - i].pages.subrange(
                        ov[k - 1 - i].pages.len() - plan[i],
                        ov[k - 1 - i].pages.len() as int,
                    )
                &&& group_total(group_views(groups@)) == min_int(
                    n,
                    unqueued_total(old(storage).chunks()),
                )
                &&& (final(storage)@, releases@) == shrink_plan(
                    marked(ov, plan),
                    k - 1,
                    group_views(groups@),
                )
                &&& total_pages(final(storage)@) == total_pages(ov) - group_total(
                    group_views(groups@),
                )
            })
        }),
{
    let num_deflatable = counters.num_deflatable_for_oom(device_num_pages);
    if num_deflatable == 0 {
        return Err(());
    }
    let num_to_deflate = if num_deflatable <= failed_alloc_num_pages {
        num_deflatable
    } else {
        failed_alloc_num_pages
    };
    let ghost ov = storage@;
    let ghost oc = storage.chunks();
    let ghost plan = marking_plan(oc, num_to_deflate as int);
    let groups = storage.mark_pages_for_deflation(num_to_deflate);
    proof {
        let k = oc.len();
        let nc = storage.chunks();
        let gs = group_views(groups@);
        assert forall|i: int| 0 <= i < oc.len() implies (#[trigger] oc[i]).wf() by {}
        lemma_marking_plan(oc, num_to_deflate as int);
        assert forall|j: int| 0 <= j < k implies #[trigger] storage@[j] == marked(ov, plan)[j] by {
            assert(storage@[j] == nc[j]@);
            assert(ov[j] == oc[j]@);
            if j >= k - plan.len() {
                let i = k - 1 - j;
                assert(nc[k - 1 - i].queued_start() == oc[k - 1 - i].queued_start() - plan[i]);
            } else {
                assert(nc[j] == oc[j]);
            }
        }
        assert(storage@ =~= marked(ov, plan));
        assert forall|i: int| 0 <= i < gs.len() implies #[trigger] gs[i] == storage@[storage@.len()
            - 1 - i].queued() && gs[i].len() == plan[i] by {
            let j = k - 1 - i;
            assert(ov[j] == oc[j]@);
            assert(storage@[j] == nc[j]@);
            assert(gs[i] == groups@[i]@);
            assert(ov[j].queued_start == ov[j].pages.len());
        }
        assert forall|i: int| 0 <= i < storage@.len() implies (#[trigger] storage@[i]).wf() by {
            assert(storage@[i] == nc[i]@);
        }
        lemma_shrink_marked_chunks(storage@, gs);
        lemma_group_total_plan(gs, plan);
        lemma_total_pages_same_sizes(storage@, ov);
    }
    let ghost gs = group_views(groups@);
    let sent = copy_groups(&groups);
    proof {
        assert forall|i: int| 0 <= i < plan.len() implies (#[trigger] sent@[i])@ == gs[i] by {
            assert(group_views(sent@)[i] == sent@[i]@);
        }
    }
    let releases = storage.shrink_chunks(groups);
    counters.deflated(num_to_deflate);
    Ok((sent, releases))
}

} // verus!
