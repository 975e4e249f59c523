use vstd::prelude::*;

use super::allocation::{suffix_match, BalloonAllocation, ChunkRelease, ChunkView, ShrinkResult};

verus! {

/// The smaller of two integers.
pub open spec fn min_int(a: int, b: int) -> int {
    if a <= b {
        a
    } else {
        b
    }
}

/// How many pages [`BalloonStorage::mark_pages_for_deflation`] marks in each
/// chunk it visits: chunks are visited from the last (most recent) to the
/// first, each gives as many of its pages as are still available and needed,
/// and the walk stops once nothing more is needed.
pub open spec fn marking_plan(chunks: Seq<BalloonAllocation>, remaining: int) -> Seq<int>
    decreases chunks.len(),
{
    if chunks.len() == 0 {
        Seq::empty()
    } else {
        let m = min_int(chunks.last().queued_start(), remaining);
        if remaining - m == 0 {
            seq![m]
        } else {
            seq![m] + marking_plan(chunks.drop_last(), remaining - m)
        }
    }
}

/// The index of the chunk that [`BalloonStorage::shrink_chunks`] shrinks by
/// the group `g` when its search starts at `cur`: the nearest chunk at or
/// below `cur` whose queued pages end like `g`, or -1 when there is none.
pub open spec fn find_chunk(cs: Seq<ChunkView>, cur: int, g: Seq<u32>) -> int
    decreases cur + 1,
{
    if cur < 0 || cur >= cs.len() {
        -1
    } else if suffix_match(cs[cur].queued(), g) {
        cur
    } else {
        find_chunk(cs, cur - 1, g)
    }
}

/// The chunks after the chunk at `cur` was shrunk by `g`: removed when it
/// reports being deallocated, shrunk otherwise.
pub open spec fn after_shrink(cs: Seq<ChunkView>, cur: int, g: Seq<u32>) -> Seq<ChunkView> {
    if cs[cur].shrink_outcome(g).0 == ShrinkResult::Deallocated {
        cs.remove(cur)
    } else {
        cs.update(cur, cs[cur].shrunk(g))
    }
}

/// Whether shrinking the chunks `cs` by the groups of acknowledged pages
/// `groups`, searching from `next` downwards, only ever shrinks a chunk by a
/// group it accepts (see [`ChunkView::shrink_acceptable`]).
pub open spec fn shrink_plan_ok(cs: Seq<ChunkView>, next: int, groups: Seq<Seq<u32>>) -> bool
    decreases groups.len(),
{
    if groups.len() == 0 {
        true
    } else {
        let cur = find_chunk(cs, next, groups[0]);
        if cur < 0 {
            true
        } else {
            cs[cur].shrink_acceptable(groups[0]) && shrink_plan_ok(
                after_shrink(cs, cur, groups[0]),
                cur - 1,
                groups.drop_first(),
            )
        }
    }
}

/// The chunks after shrinking `cs` by the groups of acknowledged pages
/// `groups`, and what was asked of the allocator on the way, in order: each
/// group shrinks the nearest chunk below the previously shrunk one that it
/// matches; the walk ends early when no chunk matches.
pub open spec fn shrink_plan(cs: Seq<ChunkView>, next: int, groups: Seq<Seq<u32>>) -> (
    Seq<ChunkView>,
    Seq<ChunkRelease>,
)
    decreases groups.len(),
{
    if groups.len() == 0 {
        (cs, Seq::empty())
    } else {
        let cur = find_chunk(cs, next, groups[0]);
        if cur < 0 {
            (cs, Seq::empty())
        } else {
            let rest = shrink_plan(after_shrink(cs, cur, groups[0]), cur - 1, groups.drop_first());
            (rest.0, seq![cs[cur].shrink_outcome(groups[0]).1] + rest.1)
        }
    }
}

/// The number of pages the chunks `cs` hold.
pub open spec fn total_pages(cs: Seq<ChunkView>) -> int
    decreases cs.len(),
{
    if cs.len() == 0 {
        0
    } else {
        total_pages(cs.drop_last()) + cs.last().pages.len()
    }
}

/// The number of pages in the groups `gs`.
pub open spec fn group_total(gs: Seq<Seq<u32>>) -> int
    decreases gs.len(),
{
    if gs.len() == 0 {
        0
    } else {
        gs[0].len() + group_total(gs.drop_first())
    }
}

/// A chunk without its queued pages.
pub open spec fn trimmed(c: ChunkView) -> ChunkView {
    ChunkView { addr: c.addr, pages: c.pages.subrange(0, c.queued_start), queued_start: c.queued_start }
}

/// The chunks `cs` after the top `n` of them gave up their queued pages:
/// a chunk left without pages is gone, the others keep their order.
pub open spec fn trim_top(cs: Seq<ChunkView>, n: nat) -> Seq<ChunkView>
    decreases n,
{
    if n == 0 || cs.len() == 0 {
        cs
    } else {
        let rest = trim_top(cs.drop_last(), (n - 1) as nat);
        if cs.last().queued_start == 0 {
            rest
        } else {
            rest.push(trimmed(cs.last()))
        }
    }
}

/// Each group of `gs` is the queued pages of a chunk of `cs`, from the top
/// down: what `BalloonStorage::mark_pages_for_deflation` returns for chunks
/// that had no page queued before.
pub open spec fn groups_are_queued(cs: Seq<ChunkView>, gs: Seq<Seq<u32>>) -> bool {
    &&& gs.len() <= cs.len()
    &&& forall|i: int| 0 <= i < cs.len() ==> (#[trigger] cs[i]).wf()
    &&& forall|i: int| 0 <= i < gs.len() ==> #[trigger] gs[i] == cs[cs.len() - 1 - i].queued()
}

proof fn lemma_shrink_queued_chunk(c: ChunkView)
    requires
        c.wf(),
    ensures
        c.shrink_acceptable(c.queued()),
        c.queued_start == 0 ==> c.shrink_outcome(c.queued()).0 == ShrinkResult::Deallocated,
        c.queued_start != 0 ==> c.shrink_outcome(c.queued()).0 == ShrinkResult::PagesRemain
            && c.shrunk(c.queued()) == trimmed(c),
{
    let g = c.queued();
    if c.addr is Some && g.len() > 0 {
        g.index_of_first_ensures(g[0]);
        assert(g.contains(g[0]));
        let idx = g.index_of_first(g[0])->Some_0;
        if idx > 0 {
            assert(g[0] != g[0]);
        }
        assert(c.shrink_from(g) == c.queued_start);
    }
    if c.addr is Some && g.len() == 0 {
        assert(c.pages.subrange(0, c.queued_start) =~= c.pages);
    }
}

proof fn lemma_shrink_plan_top(cs: Seq<ChunkView>, t: Seq<ChunkView>, gs: Seq<Seq<u32>>)
    requires
        groups_are_queued(cs, gs),
    ensures
        shrink_plan_ok(cs + t, cs.len() - 1, gs),
        shrink_plan(cs + t, cs.len() - 1, gs).0 == trim_top(cs, gs.len()) + t,
    decreases gs.len(),
{
    if gs.len() == 0 {
        assert(trim_top(cs, 0) == cs);
    } else {
        let all = cs + t;
        let k = cs.len() - 1;
        let c = cs.last();
        let g = gs[0];
        assert(all[k] == c);
        assert(g == c.queued());
        assert(suffix_match(c.queued(), g));
        assert(find_chunk(all, k, g) == k);
        lemma_shrink_queued_chunk(c);
        let rest = cs.drop_last();
        let gs1 = gs.drop_first();
        assert forall|i: int| 0 <= i < gs1.len() implies #[trigger] gs1[i] == rest[rest.len() - 1 - i].queued() by {
            assert(gs1[i] == gs[i + 1]);
        }
        assert forall|i: int| 0 <= i < rest.len() implies (#[trigger] rest[i]).wf() by {
            assert(rest[i] == cs[i]);
        }
        assert(groups_are_queued(rest, gs1));
        if c.queued_start == 0 {
            assert(after_shrink(all, k, g) =~= rest + t);
            lemma_shrink_plan_top(rest, t, gs1);
            assert(trim_top(cs, gs.len()) == trim_top(rest, gs1.len()));
        } else {
            let t1 = seq![trimmed(c)] + t;
            assert(after_shrink(all, k, g) =~= rest + t1);
            lemma_shrink_plan_top(rest, t1, gs1);
            assert(trim_top(cs, gs.len()) == trim_top(rest, gs1.len()).push(trimmed(c)));
            assert(trim_top(rest, gs1.len()) + t1 =~= trim_top(rest, gs1.len()).push(trimmed(c))
                + t);
        }
    }
}

proof fn lemma_trim_top_shape(cs: Seq<ChunkView>, gs: Seq<Seq<u32>>)
    requires
        groups_are_queued(cs, gs),
    ensures
        total_pages(trim_top(cs, gs.len())) == total_pages(cs) - group_total(gs),
        trim_top(cs, gs.len()).len() >= cs.len() - gs.len(),
        forall|j: int|
            0 <= j < cs.len() - gs.len() ==> #[trigger] trim_top(cs, gs.len())[j] == cs[j],
        forall|j: int|
            cs.len() - gs.len() <= j < trim_top(cs, gs.len()).len() ==> {
                &&& (#[trigger] trim_top(cs, gs.len())[j]).queued().len() == 0
                &&& trim_top(cs, gs.len())[j].pages.len() > 0
            },
    decreases gs.len(),
{
    if gs.len() == 0 {
        assert(trim_top(cs, 0) == cs);
    } else {
        let c = cs.last();
        let rest = cs.drop_last();
        let gs1 = gs.drop_first();
        assert forall|i: int| 0 <= i < gs1.len() implies #[trigger] gs1[i] == rest[rest.len() - 1 - i].queued() by {
            assert(gs1[i] == gs[i + 1]);
        }
        assert forall|i: int| 0 <= i < rest.len() implies (#[trigger] rest[i]).wf() by {
            assert(rest[i] == cs[i]);
        }
        lemma_trim_top_shape(rest, gs1);
        assert(c.wf());
        assert(gs[0] == c.queued());
        let r = trim_top(rest, gs1.len());
        if c.queued_start == 0 {
            assert(trim_top(cs, gs.len()) == r);
        } else {
            assert(trim_top(cs, gs.len()) == r.push(trimmed(c)));
            assert(r.push(trimmed(c)).drop_last() =~= r);
        }
    }
}

/// Shrinking the chunks by the groups of pages marked for deflation, each
/// group being the queued pages of a chunk from the top down (as
/// `mark_pages_for_deflation` marks them in chunks that had none queued):
/// every shrink is one the chunks accept; the chunks hold as many pages
/// fewer as the groups hold; the chunks below the shrunk ones stay as they
/// were and in their order; each shrunk chunk keeps the pages before its
/// queued ones and has no page queued any more, or is gone when it is left
/// without pages.
pub proof fn lemma_shrink_marked_chunks(cs: Seq<ChunkView>, gs: Seq<Seq<u32>>)
    requires
        groups_are_queued(cs, gs),
    ensures
        shrink_plan_ok(cs, cs.len() - 1, gs),
        shrink_plan(cs, cs.len() - 1, gs).0 == trim_top(cs, gs.len()),
        total_pages(trim_top(cs, gs.len())) == total_pages(cs) - group_total(gs),
        trim_top(cs, gs.len()).len() >= cs.len() - gs.len(),
        forall|j: int|
            0 <= j < cs.len() - gs.len() ==> #[trigger] trim_top(cs, gs.len())[j] == cs[j],
        forall|j: int|
            cs.len() - gs.len() <= j < trim_top(cs, gs.len()).len() ==> {
                &&& (#[trigger] trim_top(cs, gs.len())[j]).queued().len() == 0
                &&& trim_top(cs, gs.len())[j].pages.len() > 0
            },
{
    let e = Seq::<ChunkView>::empty();
    lemma_shrink_plan_top(cs, e, gs);
    assert(cs + e =~= cs);
    assert(trim_top(cs, gs.len()) + e =~= trim_top(cs, gs.len()));
    lemma_trim_top_shape(cs, gs);
}

/// No page index occurs twice among the chunks `cs`.
pub open spec fn pages_distinct(cs: Seq<ChunkView>) -> bool {
    forall|i: int, a: int, j: int, b: int|
        0 <= i < cs.len() && 0 <= j < cs.len() && 0 <= a < cs[i].pages.len() && 0 <= b
            < cs[j].pages.len() && (i != j || a != b) ==> #[trigger] cs[i].pages[a]
            != #[trigger] cs[j].pages[b]
}

/// The pages of chunk `j` of `cs` that remain once the top `n` chunks gave
/// up their queued pages.
pub open spec fn kept_pages(cs: Seq<ChunkView>, n: int, j: int) -> Seq<u32> {
    if j >= cs.len() - n {
        cs[j].pages.subrange(0, cs[j].queued_start)
    } else {
        cs[j].pages
    }
}

proof fn lemma_trim_top_sources(cs: Seq<ChunkView>, n: nat)
    requires
        n <= cs.len(),
    ensures
        forall|r: int|
            0 <= r < trim_top(cs, n).len() ==> exists|j: int|
                0 <= j < cs.len() && #[trigger] trim_top(cs, n)[r].pages == kept_pages(cs, n as int, j),
    decreases n,
{
    if n == 0 || cs.len() == 0 {
        assert forall|r: int| 0 <= r < trim_top(cs, n).len() implies exists|j: int|
            0 <= j < cs.len() && #[trigger] trim_top(cs, n)[r].pages == kept_pages(cs, n as int, j) by {
            assert(kept_pages(cs, n as int, r) == cs[r].pages);
        }
    } else {
        let rest = cs.drop_last();
        let m = (n - 1) as nat;
        lemma_trim_top_sources(rest, m);
        let tr = trim_top(rest, m);
        assert forall|r: int| 0 <= r < trim_top(cs, n).len() implies exists|j: int|
            0 <= j < cs.len() && #[trigger] trim_top(cs, n)[r].pages == kept_pages(cs, n as int, j) by {
            if r < tr.len() {
                assert(trim_top(cs, n)[r] == tr[r]);
                let j = choose|j: int|
                    0 <= j < rest.len() && #[trigger] tr[r].pages == kept_pages(rest, m as int, j);
                assert(kept_pages(rest, m as int, j) == kept_pages(cs, n as int, j));
            } else {
                assert(trim_top(cs, n)[r] == trimmed(cs.last()));
                assert(kept_pages(cs, n as int, cs.len() - 1) == trimmed(cs.last()).pages);
            }
        }
    }
}

/// With no page index occurring twice, no page of the groups remains in
/// any chunk once the chunks were shrunk by them.
pub proof fn lemma_no_marked_page_remains(cs: Seq<ChunkView>, gs: Seq<Seq<u32>>)
    requires
        groups_are_queued(cs, gs),
        pages_distinct(cs),
    ensures
        forall|r: int, k: int, a: int|
            0 <= r < trim_top(cs, gs.len()).len() && 0 <= k < gs.len() && 0 <= a < gs[k].len()
                ==> !(#[trigger] trim_top(cs, gs.len())[r]).pages.contains(#[trigger] gs[k][a]),
{
    let n = gs.len();
    lemma_trim_top_sources(cs, n);
    assert forall|r: int, k: int, a: int|
        0 <= r < trim_top(cs, n).len() && 0 <= k < n && 0 <= a < gs[k].len() implies !(
        #[trigger] trim_top(cs, n)[r]).pages.contains(#[trigger] gs[k][a]) by {
        let j = choose|j: int|
            0 <= j < cs.len() && #[trigger] trim_top(cs, n)[r].pages == kept_pages(cs, n as int, j);
        let m = cs.len() - 1 - k;
        let c = cs[m];
        assert(c.wf());
        assert(gs[k] == c.queued());
        assert(gs[k][a] == c.pages[c.queued_start + a]);
        if trim_top(cs, n)[r].pages.contains(gs[k][a]) {
            let kp = kept_pages(cs, n as int, j);
            let b = choose|b: int| 0 <= b < kp.len() && kp[b] == gs[k][a];
            assert(cs[j].wf());
            assert(kp[b] == cs[j].pages[b]);
            assert(cs[j].pages[b] != cs[m].pages[c.queued_start + a]);
        }
    }
}

/// The number of pages of the chunks that are not queued for deflation.
pub open spec fn unqueued_total(chunks: Seq<BalloonAllocation>) -> int
    decreases chunks.len(),
{
    if chunks.len() == 0 {
        0
    } else {
        unqueued_total(chunks.drop_last()) + chunks.last().queued_start()
    }
}

/// The sum of the counts of a marking plan.
pub open spec fn plan_total(plan: Seq<int>) -> int
    decreases plan.len(),
{
    if plan.len() == 0 {
        0
    } else {
        plan[0] + plan_total(plan.drop_first())
    }
}

/// A marking plan visits no more chunks than there are, and marks as many
/// pages as were asked for, or all pages not queued yet where there are
/// fewer.
pub proof fn lemma_marking_plan(chunks: Seq<BalloonAllocation>, remaining: int)
    requires
        remaining >= 0,
        forall|i: int| 0 <= i < chunks.len() ==> (#[trigger] chunks[i]).wf(),
    ensures
        marking_plan(chunks, remaining).len() <= chunks.len(),
        unqueued_total(chunks) >= 0,
        plan_total(marking_plan(chunks, remaining)) == min_int(remaining, unqueued_total(chunks)),
    decreases chunks.len(),
{
    if chunks.len() > 0 {
        let c = chunks.last();
        assert(c.wf());
        let m = min_int(c.queued_start(), remaining);
        let rest = chunks.drop_last();
        assert forall|i: int| 0 <= i < rest.len() implies (#[trigger] rest[i]).wf() by {
            assert(rest[i] == chunks[i]);
        }
        lemma_marking_plan(rest, remaining - m);
        let plan = marking_plan(chunks, remaining);
        if remaining - m != 0 {
            assert(plan.drop_first() =~= marking_plan(rest, remaining - m));
        } else {
            assert(plan.drop_first() =~= Seq::<int>::empty());
            assert(plan_total(plan.drop_first()) == 0);
        }
        assert(plan[0] == m);
        assert(plan_total(plan) == m + plan_total(plan.drop_first()));
    }
}

/// Groups as long as the counts of a plan hold as many pages as the plan
/// counts.
pub proof fn lemma_group_total_plan(gs: Seq<Seq<u32>>, plan: Seq<int>)
    requires
        gs.len() == plan.len(),
        forall|i: int| 0 <= i < gs.len() ==> (#[trigger] gs[i]).len() == plan[i],
    ensures
        group_total(gs) == plan_total(plan),
    decreases gs.len(),
{
    if gs.len() > 0 {
        assert forall|i: int| 0 <= i < gs.drop_first().len() implies (
        #[trigger] gs.drop_first()[i]).len() == plan.drop_first()[i] by {
            assert(gs.drop_first()[i] == gs[i + 1]);
        }
        lemma_group_total_plan(gs.drop_first(), plan.drop_first());
    }
}

/// Chunks of as many pages each hold as many pages in all.
pub proof fn lemma_total_pages_same_sizes(a: Seq<ChunkView>, b: Seq<ChunkView>)
    requires
        a.len() == b.len(),
        forall|i: int| 0 <= i < a.len() ==> (#[trigger] a[i]).pages.len() == b[i].pages.len(),
    ensures
        total_pages(a) == total_pages(b),
    decreases a.len(),
{
    if a.len() > 0 {
        assert forall|i: int| 0 <= i < a.drop_last().len() implies (
        #[trigger] a.drop_last()[i]).pages.len() == b.drop_last()[i].pages.len() by {
            assert(a.drop_last()[i] == a[i]);
            assert(b.drop_last()[i] == b[i]);
        }
        lemma_total_pages_same_sizes(a.drop_last(), b.drop_last());
    }
}

/// No page of the chunks `cs` is queued for deflation.
pub open spec fn nothing_queued(cs: Seq<ChunkView>) -> bool {
    forall|i: int| 0 <= i < cs.len() ==> (#[trigger] cs[i]).queued_start == cs[i].pages.len()
}

/// The chunks `cs` once [`BalloonStorage::mark_pages_for_deflation`] queued
/// `plan[i]` more pages of the `i`-th chunk from the top.
pub open spec fn marked(cs: Seq<ChunkView>, plan: Seq<int>) -> Seq<ChunkView> {
    Seq::new(
        cs.len(),
        |j: int|
            if j >= cs.len() - plan.len() {
                ChunkView { queued_start: cs[j].queued_start - plan[cs.len() - 1 - j], ..cs[j] }
            } else {
                cs[j]
            },
    )
}

/// The page indices of each group of `groups`.
pub open spec fn group_views(groups: Seq<Vec<u32>>) -> Seq<Seq<u32>> {
    groups.map_values(|g: Vec<u32>| g@)
}

/// A stack of chunks of pages allocated for the balloon.
pub struct BalloonStorage {
    chunks: Vec<BalloonAllocation>,
}

impl View for BalloonStorage {
    type V = Seq<ChunkView>;

    closed spec fn view(&self) -> Seq<ChunkView> {
        self.chunks@.map_values(|c: BalloonAllocation| c@)
    }
}

impl BalloonStorage {
    /// The chunks, oldest first.
    pub closed spec fn chunks(&self) -> Seq<BalloonAllocation> {
        self.chunks@
    }

    pub open spec fn wf(&self) -> bool {
        &&& forall|i: int| 0 <= i < self.chunks().len() ==> #[trigger] self.chunks()[i].wf()
        &&& self@.len() == self.chunks().len()
        &&& forall|i: int| 0 <= i < self.chunks().len() ==> #[trigger] self@[i] == self.chunks()[i]@
    }

    pub fn new() -> (r: Self)
        ensures
            r.wf(),
            r.chunks().len() == 0,
    {
        BalloonStorage { chunks: Vec::new() }
    }

    /// Adds a freshly allocated chunk on top of the stack and returns the
    /// physical page indices of its pages.
    pub fn push_chunk(&mut self, chunk: BalloonAllocation) -> (r: Vec<u32>)
        requires
            old(self).wf(),
            chunk.wf(),
        ensures
            final(self).wf(),
            final(self).chunks() == old(self).chunks().push(chunk),
            r@ == chunk.pages(),
    {
        let r = chunk.phys_page_indices();
        self.chunks.push(chunk);
        assert forall|i: int| 0 <= i < self.chunks().len() implies #[trigger] self.chunks()[i].wf() by {
            if i < old(self).chunks().len() {
                assert(self.chunks()[i] == old(self).chunks()[i]);
            }
        }
        r
    }

    /// Marks up to `target_num_pages` pages as queued for deflation, going
    /// through the chunks from the most recent to the oldest. Returns, per
    /// visited chunk, the page indices it marked.
    pub fn mark_pages_for_deflation(&mut self, target_num_pages: u32) -> (r: Vec<Vec<u32>>)
        requires
            old(self).wf(),
        ensures
            final(self).wf(),
            ({
                let oc = old(self).chunks();
                let nc = final(self).chunks();
                let plan = marking_plan(oc, target_num_pages as int);
                let k = oc.len();
                &&& nc.len() == k
                &&& r@.len() == plan.len()
                &&& forall|t: int|
                    0 <= t < k ==> (#[trigger] nc[t]).pages() == oc[t].pages() && nc[t].addr()
                        == oc[t].addr()
                &&& forall|t: int|
                    0 <= t < k - plan.len() ==> #[trigger] nc[t] == oc[t]
                &&& forall|i: int|
                    0 <= i < plan.len() ==> {
                        &&& 0 <= #[trigger] plan[i] <= oc[k - 1 - i].queued_start()
                        &&& nc[k - 1 - i].queued_start() == oc[k - 1 - i].queued_start() - plan[i]
                        &&& r@[i]@ == oc[k - 1 - i].pages().subrange(
                            oc[k - 1 - i].queued_start() - plan[i],
                            oc[k - 1 - i].queued_start(),
                        )
                    }
            }),
    {
        let ghost oc = self.chunks();
        let ghost k = oc.len() as int;
        let mut num_remaining = target_num_pages;
        let mut per_chunk_page_indices: Vec<Vec<u32>> = Vec::new();
        let ghost mut counts: Seq<int> = Seq::empty();
        let mut j = self.chunks.len();
        proof {
            assert(oc.take(k) =~= oc);
        }
        while j > 0
            invariant_except_break
                0 <= j <= k,
                counts.len() == k - j,
                per_chunk_page_indices@.len() == counts.len(),
                counts.len() > 0 ==> num_remaining > 0,
                marking_plan(oc, target_num_pages as int) == counts + marking_plan(
                    oc.take(j as int),
                    num_remaining as int,
                ),
            invariant
                self.wf(),
                k == oc.len(),
                self.chunks@.len() == k,
                forall|t: int|
                    0 <= t < k ==> (#[trigger] self.chunks@[t]).pages() == oc[t].pages()
                        && self.chunks@[t].addr() == oc[t].addr(),
                forall|t: int| 0 <= t < k - counts.len() ==> #[trigger] self.chunks@[t] == oc[t],
                forall|i: int|
                    0 <= i < counts.len() ==> {
                        &&& 0 <= #[trigger] counts[i] <= oc[k - 1 - i].queued_start()
                        &&& self.chunks@[k - 1 - i].queued_start() == oc[k - 1 - i].queued_start()
                            - counts[i]
                        &&& per_chunk_page_indices@[i]@ == oc[k - 1 - i].pages().subrange(
                            oc[k - 1 - i].queued_start() - counts[i],
                            oc[k - 1 - i].queued_start(),
                        )
                    },
            ensures
                per_chunk_page_indices@.len() == counts.len(),
                marking_plan(oc, target_num_pages as int) == counts,
            decreases j,
        {
            j = j - 1;
            assert(self.chunks()[j as int].wf());
            let avail = self.chunks[j].num_available_for_deflation();
            let num_to_mark = if avail <= num_remaining {
                avail
            } else {
                num_remaining
            };
            let ghost rem = num_remaining as int;
            let ghost prev_counts = counts;
            proof {
                let cs = oc.take(j + 1);
                assert(cs.last() == oc[j as int]);
                assert(cs.drop_last() =~= oc.take(j as int));
                assert(oc[j as int] == self.chunks@[j as int]);
                if rem - num_to_mark == 0 {
                    assert(marking_plan(cs, rem) == seq![num_to_mark as int]);
                } else {
                    assert(marking_plan(cs, rem) == seq![num_to_mark as int] + marking_plan(
                        oc.take(j as int),
                        rem - num_to_mark,
                    ));
                }
            }
            let page_indices = self.chunks[j].mark_queued_for_deflation(num_to_mark);
            per_chunk_page_indices.push(page_indices);
            proof {
                counts = counts.push(num_to_mark as int);
                assert forall|i: int| 0 <= i < counts.len() implies {
                    &&& 0 <= #[trigger] counts[i] <= oc[k - 1 - i].queued_start()
                    &&& self.chunks@[k - 1 - i].queued_start() == oc[k - 1 - i].queued_start()
                        - counts[i]
                    &&& per_chunk_page_indices@[i]@ == oc[k - 1 - i].pages().subrange(
                        oc[k - 1 - i].queued_start() - counts[i],
                        oc[k - 1 - i].queued_start(),
                    )
                } by {
                    if i == counts.len() - 1 {
                        assert(k - 1 - i == j);
                    }
                }
            }
            num_remaining = num_remaining - num_to_mark;
            proof {
                if num_remaining != 0 {
                    assert(prev_counts + (seq![num_to_mark as int] + marking_plan(
                        oc.take(j as int),
                        num_remaining as int,
                    )) =~= counts + marking_plan(oc.take(j as int), num_remaining as int));
                }
            }
            if num_remaining == 0 {
                proof {
                    assert(prev_counts + seq![num_to_mark as int] =~= counts);
                }
                break;
            }
        }
        proof {
            let plan = marking_plan(oc, target_num_pages as int);
            assert(plan == counts);
            assert forall|i: int| 0 <= i < plan.len() implies {
                &&& 0 <= #[trigger] plan[i] <= oc[k - 1 - i].queued_start()
                &&& self.chunks@[k - 1 - i].queued_start() == oc[k - 1 - i].queued_start()
                    - plan[i]
                &&& per_chunk_page_indices@[i]@ == oc[k - 1 - i].pages().subrange(
                    oc[k - 1 - i].queued_start() - plan[i],
                    oc[k - 1 - i].queued_start(),
                )
            } by {
                assert(counts[i] == plan[i]);
            }
        }
        per_chunk_page_indices
    }

    /// Shrinks chunks by the groups of page indices whose deflation the host
    /// acknowledged, in the groups and order that
    /// [`Self::mark_pages_for_deflation`] returned them. Returns what each
    /// shrink asks of the allocator, in order.
    pub fn shrink_chunks(&mut self, acknowledged_deflated_pages: Vec<Vec<u32>>) -> (r: Vec<
        ChunkRelease,
    >)
        requires
            old(self).wf(),
            shrink_plan_ok(
                old(self)@,
                old(self)@.len() - 1,
                group_views(acknowledged_deflated_pages@),
            ),
        ensures
            final(self).wf(),
            (final(self)@, r@) == shrink_plan(
                old(self)@,
                old(self)@.len() - 1,
                group_views(acknowledged_deflated_pages@),
            ),
    {
        let groups = acknowledged_deflated_pages;
        let ghost gs = group_views(groups@);
        let ghost start_view = self@;
        assert(start_view == old(self)@);
        assert(gs == group_views(acknowledged_deflated_pages@));
        let mut releases: Vec<ChunkRelease> = Vec::new();
        let mut next: Option<usize> = if self.chunks.len() == 0 {
            None
        } else {
            Some(self.chunks.len() - 1)
        };
        let mut gi: usize = 0;
        proof {
            assert(gs.skip(0) =~= gs);
        }
        while gi < groups.len()
            invariant
                self.wf(),
                gs == group_views(groups@),
                start_view == old(self)@,
                gs == group_views(acknowledged_deflated_pages@),
                0 <= gi <= groups@.len(),
                gs.len() == groups@.len(),
                next matches Some(n) ==> n < self@.len(),
                next is None ==> (self@.len() == 0 || gi > 0),
                shrink_plan_ok(self@, Self::next_index(next), gs.skip(gi as int)),
                shrink_plan(start_view, start_view.len() - 1, gs) == (
                    shrink_plan(self@, Self::next_index(next), gs.skip(gi as int)).0,
                    releases@ + shrink_plan(self@, Self::next_index(next), gs.skip(gi as int)).1,
                ),
            decreases groups@.len() - gi,
        {
            let g = &groups[gi];
            assert(g@ == gs[gi as int]);
            assert(gs.skip(gi as int)[0] == g@);
            assert(gs.skip(gi as int).drop_first() =~= gs.skip(gi + 1));
            let mut cur = match next {
                Some(c) => c,
                None => {
                    assert(find_chunk(self@, -1, g@) == -1);
                    assert(shrink_plan(self@, -1, gs.skip(gi as int)) == (
                        self@,
                        Seq::<ChunkRelease>::empty(),
                    ));
                    assert(releases@ + Seq::<ChunkRelease>::empty() =~= releases@);
                    assert(shrink_plan(start_view, start_view.len() - 1, gs) == (self@, releases@));
                    return releases;
                },
            };
            let ghost start_cur = cur as int;
            let mut found = false;
            loop
                invariant_except_break
                    !found,
                invariant
                    self.wf(),
                    0 <= cur < self@.len(),
                    find_chunk(self@, start_cur, g@) == find_chunk(self@, cur as int, g@),
                ensures
                    0 <= cur < self@.len(),
                    found ==> find_chunk(self@, start_cur, g@) == cur,
                    !found ==> find_chunk(self@, start_cur, g@) == -1,
                decreases cur,
            {
                assert(self.chunks()[cur as int].wf());
                assert(self@[cur as int] == self.chunks()[cur as int]@);
                if self.chunks[cur].can_shrink_by_pages(g.as_slice()) {
                    assert(find_chunk(self@, cur as int, g@) == cur);
                    found = true;
                    break;
                }
                assert(find_chunk(self@, cur as int, g@) == find_chunk(self@, cur - 1, g@));
                if cur == 0 {
                    assert(find_chunk(self@, -1, g@) == -1);
                    break;
                }
                cur = cur - 1;
            }
            if !found {
                assert(shrink_plan(self@, start_cur, gs.skip(gi as int)) == (
                    self@,
                    Seq::<ChunkRelease>::empty(),
                ));
                assert(releases@ + Seq::<ChunkRelease>::empty() =~= releases@);
                assert(shrink_plan(start_view, start_view.len() - 1, gs) == (self@, releases@));
                return releases;
            }
            let ghost before = self@;
            assert(self.chunks()[cur as int].wf());
            let (res, rel) = self.chunks[cur].shrink(g.as_slice());
            match res {
                ShrinkResult::Deallocated => {
                    self.chunks.remove(cur);
                },
                ShrinkResult::PagesRemain => {},
            }
            releases.push(rel);
            proof {
                assert(self@ =~= after_shrink(before, cur as int, g@)) by {
                    assert forall|i: int| 0 <= i < self@.len() implies #[trigger] self@[i]
                        == after_shrink(before, cur as int, g@)[i] by {}
                }
                assert forall|i: int| 0 <= i < self.chunks().len() implies #[trigger] self.chunks()[i].wf() by {
                    if i < cur {
                        assert(self.chunks()[i]@ == before[i]);
                    }
                }
            }
            next = if cur == 0 {
                None
            } else {
                Some(cur - 1)
            };
            gi = gi + 1;
        }
        assert(gs.skip(gi as int).len() == 0);
        assert(releases@ + Seq::<ChunkRelease>::empty() =~= releases@);
        releases
    }

    /// The index a search for a chunk starts at, -1 when there is none left.
    pub open spec fn next_index(next: Option<usize>) -> int {
        match next {
            Some(n) => n as int,
            None => -1,
        }
    }
}

} // verus!
