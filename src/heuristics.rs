//! Read-ahead and eviction decisions for a demand-paged region.
//!
//! Pages are grouped into slices on two levels: a level-1 slice holds 64
//! pages (256 KiB) and a level-2 slice holds 8192 pages (32 MiB). A fault
//! that would complete a slice is taken as a sign of a sequential scan and
//! turns into a larger read. Pages are remembered in the order in which
//! they became resident, and the oldest are given back once too many are
//! resident.
use crate::pages::PAGE_SIZE;
use std::collections::{BTreeMap, BTreeSet, VecDeque};
use vstd::arithmetic::div_mod::lemma_fundamental_div_mod;
use vstd::prelude::*;

verus! {

/// Pages in a level-1 slice.
pub const LEVEL1_SLICE_SIZE: usize = 64;

/// Pages in a level-2 slice.
pub const LEVEL2_SLICE_SIZE: usize = 8192;

/// Level-1 slices read ahead when a level-1 slice fills.
pub const LEVEL1_READAHEAD: usize = 16;

/// Level-2 slices read ahead when a level-2 slice fills.
pub const LEVEL2_READAHEAD: usize = 2;

/// Room that a fault's read may need past the end of an object.
pub const READAHEAD_MARGIN: usize = (LEVEL2_READAHEAD * LEVEL2_SLICE_SIZE + LEVEL1_SLICE_SIZE + 1)
    * PAGE_SIZE;

/// Resident pages above which the oldest pages are evicted.
pub const MAX_LOADED_PAGES: usize = 32768;

/// How far below `MAX_LOADED_PAGES` an eviction brings the resident count.
pub const EVICTION_SLACK: usize = 500;

/// Whether `page` is recorded in `level`, a map from slice index to the
/// in-slice offsets of the recorded pages, for slices of `n` pages.
pub open spec fn loaded_in(level: Map<usize, Set<usize>>, n: usize, page: usize) -> bool {
    &&& level.contains_key((page / n) as usize)
    &&& level[(page / n) as usize].contains((page % n) as usize)
}

/// Number of recorded pages in slice `k` of `level`.
pub open spec fn slice_count(level: Map<usize, Set<usize>>, k: usize) -> nat {
    if level.contains_key(k) {
        level[k].len()
    } else {
        0
    }
}

/// Whether recording `page` would complete its slice of `n` pages.
pub open spec fn would_fill(level: Map<usize, Set<usize>>, n: usize, page: usize) -> bool {
    &&& !loaded_in(level, n, page)
    &&& slice_count(level, (page / n) as usize) + 1 == n
}

/// The set of recorded pages of each slice.
spec fn slice_sets(m: Map<usize, Slice>) -> Map<usize, Set<usize>> {
    Map::new(|k: usize| m.contains_key(k), |k: usize| m[k].loaded_pages@)
}

/// Every slice of `m` spans `n` pages and records only offsets below `n`.
spec fn level_wf(m: Map<usize, Slice>, n: usize) -> bool {
    forall|k: usize|
        #![trigger m[k]]
        m.contains_key(k) ==> {
            &&& m[k].num_pages == n
            &&& forall|i: usize| #[trigger] m[k].loaded_pages@.contains(i) ==> i < n
        }
}

/// The recorded pages of one slice.
struct Slice {
    loaded_pages: BTreeSet<usize>,
    num_pages: usize,
}

impl Slice {
    fn new(num_pages: usize) -> (r: Slice)
        ensures
            r.loaded_pages@ == Set::<usize>::empty(),
            r.num_pages == num_pages,
    {
        Slice { loaded_pages: BTreeSet::new(), num_pages }
    }

    fn remove_page(&mut self, page_number: usize)
        ensures
            final(self).loaded_pages@ == old(self).loaded_pages@.remove(page_number),
            final(self).num_pages == old(self).num_pages,
    {
        self.loaded_pages.remove(&page_number);
    }

    fn add_page(&mut self, page_number: usize)
        ensures
            final(self).loaded_pages@ == old(self).loaded_pages@.insert(page_number),
            final(self).num_pages == old(self).num_pages,
    {
        self.loaded_pages.insert(page_number);
    }

    /// Whether recording `page_number` would complete this slice.
    fn would_fill(&self, page_number: usize) -> (r: bool)
        requires
            self.num_pages >= 1,
        ensures
            r == (!self.loaded_pages@.contains(page_number) && self.loaded_pages@.len() + 1
                == self.num_pages),
    {
        if self.loaded_pages.contains(&page_number) {
            return false;
        }
        if self.loaded_pages.len() == self.num_pages - 1 {
            return true;
        }
        false
    }
}

/// Records `page` in `level`, whose slices span `n` pages.
fn add_to_level(level: &mut BTreeMap<usize, Slice>, n: usize, page: usize)
    requires
        n >= 1,
        level_wf(old(level)@, n),
    ensures
        level_wf(final(level)@, n),
        forall|p: usize|
            #[trigger] loaded_in(slice_sets(final(level)@), n, p) <==> (loaded_in(
                slice_sets(old(level)@),
                n,
                p,
            ) || p == page),
{
    let k: usize = page / n;
    let i: usize = page % n;
    let mut s = match level.remove(&k) {
        Some(s) => s,
        None => Slice::new(n),
    };
    s.add_page(i);
    level.insert(k, s);
    proof {
        assert forall|p: usize|
            #[trigger] loaded_in(slice_sets(level@), n, p) <==> (loaded_in(
                slice_sets(old(level)@),
                n,
                p,
            ) || p == page) by {
            lemma_fundamental_div_mod(p as int, n as int);
            lemma_fundamental_div_mod(page as int, n as int);
        }
    }
}

/// Forgets `page` in `level`, whose slices span `n` pages.
fn remove_from_level(level: &mut BTreeMap<usize, Slice>, n: usize, page: usize)
    requires
        n >= 1,
        level_wf(old(level)@, n),
    ensures
        level_wf(final(level)@, n),
        forall|p: usize|
            #[trigger] loaded_in(slice_sets(final(level)@), n, p) <==> (loaded_in(
                slice_sets(old(level)@),
                n,
                p,
            ) && p != page),
{
    let k: usize = page / n;
    let i: usize = page % n;
    let mut s = match level.remove(&k) {
        Some(s) => s,
        None => Slice::new(n),
    };
    s.remove_page(i);
    level.insert(k, s);
    proof {
        assert forall|p: usize|
            #[trigger] loaded_in(slice_sets(level@), n, p) <==> (loaded_in(
                slice_sets(old(level)@),
                n,
                p,
            ) && p != page) by {
            lemma_fundamental_div_mod(p as int, n as int);
            lemma_fundamental_div_mod(page as int, n as int);
        }
    }
}

/// The rounding of a read of `size` bytes at `offset` so that its last page
/// lands one page before the end of a level-1 slice.
pub open spec fn roundup_slice1_spec(offset: int, size: int) -> int {
    let k: int = ((offset + size - 1) / PAGE_SIZE as int) % LEVEL1_SLICE_SIZE as int;
    if k == LEVEL1_SLICE_SIZE - 2 {
        size
    } else if k == LEVEL1_SLICE_SIZE - 1 {
        size + (LEVEL1_SLICE_SIZE - 1) * PAGE_SIZE
    } else {
        size + (LEVEL1_SLICE_SIZE - 2 - k) * PAGE_SIZE
    }
}

/// The read size chosen when a fault completes a level-1 slice: up to one
/// page before the next level-2 boundary when that is no more than the
/// level-1 read-ahead, otherwise the level-1 read-ahead rounded by
/// `roundup_slice1_spec`.
pub open spec fn extend_readahead1_spec(offset: int, minsz: int) -> int {
    let m2: int = ((offset + minsz - 1) / PAGE_SIZE as int) % LEVEL2_SLICE_SIZE as int;
    let limit: int = LEVEL1_READAHEAD * LEVEL1_SLICE_SIZE * PAGE_SIZE;
    if m2 == LEVEL2_SLICE_SIZE - 2 {
        minsz
    } else if m2 < LEVEL2_SLICE_SIZE - 2 && minsz + (LEVEL2_SLICE_SIZE - 2 - m2) * PAGE_SIZE
        <= limit {
        minsz + (LEVEL2_SLICE_SIZE - 2 - m2) * PAGE_SIZE
    } else {
        roundup_slice1_spec(offset, limit)
    }
}

/// The read size recommended for a fault at byte `offset` with a minimum
/// read of `min_bytes`, given the recorded pages of both levels.
pub open spec fn readahead_spec(
    level1: Map<usize, Set<usize>>,
    level2: Map<usize, Set<usize>>,
    offset: usize,
    min_bytes: usize,
) -> int {
    let page: usize = (offset / PAGE_SIZE) as usize;
    let a: int = if would_fill(level1, LEVEL1_SLICE_SIZE, page) {
        extend_readahead1_spec(offset as int, PAGE_SIZE as int)
    } else {
        min_bytes as int
    };
    if would_fill(level2, LEVEL2_SLICE_SIZE, page) {
        let big: int = LEVEL2_READAHEAD * LEVEL2_SLICE_SIZE * PAGE_SIZE;
        roundup_slice1_spec(offset as int, if a > big { a } else { big as int })
    } else {
        a
    }
}

/// The pages `[start, end)` in increasing order; empty when `end <= start`.
pub open spec fn page_range(start: usize, end: usize) -> Seq<usize> {
    if start < end {
        Seq::new((end - start) as nat, |i: int| (start + i) as usize)
    } else {
        Seq::empty()
    }
}

/// The queue that `evict_pages_if_needed` leaves of a queue `q1`.
pub open spec fn queue_after_eviction(q1: Seq<usize>) -> Seq<usize> {
    if q1.len() > MAX_LOADED_PAGES {
        q1.subrange(q1.len() - (MAX_LOADED_PAGES - EVICTION_SLACK), q1.len() as int)
    } else {
        q1
    }
}

/// The pages that `evict_pages_if_needed` gives back from a queue `q1`.
pub open spec fn evicted_from(q1: Seq<usize>) -> Set<usize> {
    if q1.len() > MAX_LOADED_PAGES {
        q1.subrange(0, q1.len() - (MAX_LOADED_PAGES - EVICTION_SLACK)).to_set()
    } else {
        Set::empty()
    }
}

/// Tracks resident pages on two slice levels and in order of arrival.
pub struct PageHeuristics {
    level1slices: BTreeMap<usize, Slice>,
    level2slices: BTreeMap<usize, Slice>,
    evict_queue: VecDeque<usize>,
}

impl PageHeuristics {
    /// Pages in the order in which they were recorded, oldest first.
    pub closed spec fn queue(&self) -> Seq<usize> {
        self.evict_queue@
    }

    /// Recorded pages per level-1 slice.
    pub closed spec fn level1(&self) -> Map<usize, Set<usize>> {
        slice_sets(self.level1slices@)
    }

    /// Recorded pages per level-2 slice.
    pub closed spec fn level2(&self) -> Map<usize, Set<usize>> {
        slice_sets(self.level2slices@)
    }

    /// Whether `page` is resident.
    pub open spec fn is_loaded(&self, page: usize) -> bool {
        loaded_in(self.level1(), LEVEL1_SLICE_SIZE, page)
    }

    /// The resident pages.
    pub open spec fn resident_pages(&self) -> Set<usize> {
        Set::new(|p: usize| self.is_loaded(p))
    }

    /// Both levels record the same pages, each of them is in the queue, and
    /// each slice spans its level's number of pages.
    pub closed spec fn wf(&self) -> bool {
        &&& level_wf(self.level1slices@, LEVEL1_SLICE_SIZE)
        &&& level_wf(self.level2slices@, LEVEL2_SLICE_SIZE)
        &&& forall|p: usize|
            #![trigger loaded_in(self.level1(), LEVEL1_SLICE_SIZE, p)]
            #![trigger loaded_in(self.level2(), LEVEL2_SLICE_SIZE, p)]
            loaded_in(self.level1(), LEVEL1_SLICE_SIZE, p) <==> loaded_in(
                self.level2(),
                LEVEL2_SLICE_SIZE,
                p,
            )
        &&& forall|p: usize|
            #[trigger] loaded_in(self.level1(), LEVEL1_SLICE_SIZE, p) ==> self.queue().contains(p)
    }

    pub fn new() -> (r: Self)
        ensures
            r.wf(),
            r.queue() == Seq::<usize>::empty(),
            r.level1() == Map::<usize, Set<usize>>::empty(),
            r.level2() == Map::<usize, Set<usize>>::empty(),
    {
        let r = PageHeuristics {
            level1slices: BTreeMap::new(),
            level2slices: BTreeMap::new(),
            evict_queue: VecDeque::new(),
        };
        assert(r.level1() =~= Map::<usize, Set<usize>>::empty());
        assert(r.level2() =~= Map::<usize, Set<usize>>::empty());
        r
    }

    /// Records pages `[start_page, end_page)` as resident, in that order.
    pub fn mark_pages_as_read(&mut self, start_page: usize, end_page: usize)
        requires
            old(self).wf(),
        ensures
            final(self).wf(),
            final(self).queue() == old(self).queue() + page_range(start_page, end_page),
            forall|p: usize|
                #[trigger] final(self).is_loaded(p) <==> (old(self).is_loaded(p) || (start_page
                    <= p < end_page)),
            forall|p: usize|
                #[trigger] loaded_in(final(self).level2(), LEVEL2_SLICE_SIZE, p) <==> (loaded_in(
                    old(self).level2(),
                    LEVEL2_SLICE_SIZE,
                    p,
                ) || (start_page <= p < end_page)),
    {
        let mut pagenum: usize = start_page;
        while pagenum < end_page
            invariant
                self.wf(),
                start_page <= end_page ==> start_page <= pagenum <= end_page,
                start_page > end_page ==> pagenum == start_page,
                self.queue() == old(self).queue() + page_range(start_page, pagenum),
                forall|p: usize|
                    #[trigger] loaded_in(self.level1(), LEVEL1_SLICE_SIZE, p) <==> (loaded_in(
                        old(self).level1(),
                        LEVEL1_SLICE_SIZE,
                        p,
                    ) || (start_page <= p < pagenum)),
                forall|p: usize|
                    #[trigger] loaded_in(self.level2(), LEVEL2_SLICE_SIZE, p) <==> (loaded_in(
                        old(self).level2(),
                        LEVEL2_SLICE_SIZE,
                        p,
                    ) || (start_page <= p < pagenum)),
            decreases end_page - pagenum,
        {
            let ghost q0 = self.queue();
            let ghost l1_0 = self.level1();
            let ghost l2_0 = self.level2();
            assert(forall|p: usize|
                #[trigger] loaded_in(l1_0, LEVEL1_SLICE_SIZE, p) <==> (loaded_in(
                    old(self).level1(),
                    LEVEL1_SLICE_SIZE,
                    p,
                ) || (start_page <= p < pagenum)));
            assert(forall|p: usize|
                #[trigger] loaded_in(l2_0, LEVEL2_SLICE_SIZE, p) <==> (loaded_in(
                    old(self).level2(),
                    LEVEL2_SLICE_SIZE,
                    p,
                ) || (start_page <= p < pagenum)));
            assert(forall|p: usize|
                #[trigger] loaded_in(l1_0, LEVEL1_SLICE_SIZE, p) ==> q0.contains(p));
            self.evict_queue.push_back(pagenum);
            add_to_level(&mut self.level1slices, LEVEL1_SLICE_SIZE, pagenum);
            add_to_level(&mut self.level2slices, LEVEL2_SLICE_SIZE, pagenum);
            proof {
                assert(page_range(start_page, (pagenum + 1) as usize) =~= page_range(
                    start_page,
                    pagenum,
                ).push(pagenum));
                assert(self.queue() =~= old(self).queue() + page_range(
                    start_page,
                    (pagenum + 1) as usize,
                ));
                assert forall|p: usize| #[trigger]
                    loaded_in(self.level1(), LEVEL1_SLICE_SIZE, p) implies self.queue().contains(
                    p,
                ) by {
                    if p == pagenum {
                        assert(self.queue()[self.queue().len() - 1] == p);
                    } else {
                        let q = self.queue().drop_last();
                        assert(q =~= q0);
                        assert(loaded_in(l1_0, LEVEL1_SLICE_SIZE, p));
                        assert(q.contains(p));
                        let j = choose|j: int| 0 <= j < q.len() && q[j] == p;
                        assert(self.queue()[j] == p);
                    }
                }
            }
            pagenum = pagenum + 1;
        }
        if start_page > end_page {
            assert(page_range(start_page, end_page) =~= Seq::<usize>::empty());
            assert(self.queue() =~= old(self).queue() + page_range(start_page, end_page));
        }
    }

    /// When more than `MAX_LOADED_PAGES` pages are queued, evicts the oldest
    /// until `MAX_LOADED_PAGES - EVICTION_SLACK` remain, and adds each evicted
    /// page to `evictions`.
    pub fn evict_pages_if_needed(&mut self, evictions: &mut BTreeSet<usize>)
        requires
            old(self).wf(),
        ensures
            final(self).wf(),
            final(self).queue().len() <= MAX_LOADED_PAGES,
            old(self).queue().len() <= MAX_LOADED_PAGES ==> {
                &&& final(self).queue() == old(self).queue()
                &&& final(self).level1() == old(self).level1()
                &&& final(self).level2() == old(self).level2()
                &&& final(evictions)@ == old(evictions)@
            },
            old(self).queue().len() > MAX_LOADED_PAGES ==> {
                let n: int = old(self).queue().len() - (MAX_LOADED_PAGES - EVICTION_SLACK);
                let evicted = old(self).queue().subrange(0, n);
                &&& final(self).queue() == old(self).queue().subrange(n, old(self).queue().len() as int)
                &&& final(self).queue().len() == MAX_LOADED_PAGES - EVICTION_SLACK
                &&& final(evictions)@ == old(evictions)@ + evicted.to_set()
                &&& forall|p: usize|
                    #[trigger] final(self).is_loaded(p) <==> (old(self).is_loaded(p)
                        && !evicted.contains(p))
                &&& forall|p: usize|
                    #[trigger] loaded_in(final(self).level2(), LEVEL2_SLICE_SIZE, p) <==> (
                    loaded_in(old(self).level2(), LEVEL2_SLICE_SIZE, p) && !evicted.contains(p))
            },
    {
        if self.evict_queue.len() > MAX_LOADED_PAGES {
            let count: usize = self.evict_queue.len() - MAX_LOADED_PAGES + EVICTION_SLACK;
            let ghost q0 = old(self).queue();
            let mut done: usize = 0;
            while done < count
                invariant
                    self.wf(),
                    count == q0.len() - (MAX_LOADED_PAGES - EVICTION_SLACK),
                    q0 == old(self).queue(),
                    q0.len() > MAX_LOADED_PAGES,
                    done <= count,
                    self.queue() == q0.subrange(done as int, q0.len() as int),
                    evictions@ == old(evictions)@ + q0.subrange(0, done as int).to_set(),
                    forall|p: usize|
                        #[trigger] loaded_in(self.level1(), LEVEL1_SLICE_SIZE, p) <==> (
                        loaded_in(old(self).level1(), LEVEL1_SLICE_SIZE, p) && !q0.subrange(
                            0,
                            done as int,
                        ).contains(p)),
                    forall|p: usize|
                        #[trigger] loaded_in(self.level2(), LEVEL2_SLICE_SIZE, p) <==> (
                        loaded_in(old(self).level2(), LEVEL2_SLICE_SIZE, p) && !q0.subrange(
                            0,
                            done as int,
                        ).contains(p)),
                decreases count - done,
            {
                let ghost l1_0 = self.level1();
                let ghost l2_0 = self.level2();
                let ghost qs = self.queue();
                assert(forall|p: usize|
                    #[trigger] loaded_in(l1_0, LEVEL1_SLICE_SIZE, p) ==> qs.contains(p));
                let page_evict: usize = match self.evict_queue.pop_front() {
                    Some(x) => x,
                    None => { proof { assert(false); } 0 },
                };
                remove_from_level(&mut self.level1slices, LEVEL1_SLICE_SIZE, page_evict);
                remove_from_level(&mut self.level2slices, LEVEL2_SLICE_SIZE, page_evict);
                evictions.insert(page_evict);
                proof {
                    let pre = q0.subrange(0, done as int);
                    let post = q0.subrange(0, done + 1);
                    assert(post =~= pre.push(page_evict));
                    assert(forall|p: usize| post.contains(p) <==> (pre.contains(p) || p == page_evict)) by {
                        assert forall|p: usize| post.contains(p) implies (pre.contains(p) || p == page_evict) by {
                            let j = choose|j: int| 0 <= j < post.len() && post[j] == p;
                            if j < done { assert(pre[j] == p); }
                        }
                        assert forall|p: usize| pre.contains(p) implies post.contains(p) by {
                            let j = choose|j: int| 0 <= j < pre.len() && pre[j] == p;
                            assert(post[j] == p);
                        }
                        assert(post[done as int] == page_evict);
                    }
                    assert(evictions@ =~= old(evictions)@ + post.to_set());
                    assert(self.queue() =~= q0.subrange(done + 1, q0.len() as int));
                    assert forall|p: usize| #[trigger]
                        loaded_in(self.level1(), LEVEL1_SLICE_SIZE, p) implies self.queue().contains(p) by {
                        assert(loaded_in(l1_0, LEVEL1_SLICE_SIZE, p));
                        assert(p != page_evict);
                        let j = choose|j: int| 0 <= j < qs.len() && qs[j] == p;
                        assert(j != 0);
                        assert(self.queue()[j - 1] == p);
                    }
                }
                done = done + 1;
            }
        }
    }

    /// Same as `evict_pages_if_needed`, returning the evicted pages.
    pub fn evict_pages_if_needed2(&mut self) -> (evictions: BTreeSet<usize>)
        requires
            old(self).wf(),
        ensures
            final(self).wf(),
            final(self).queue().len() <= MAX_LOADED_PAGES,
            old(self).queue().len() <= MAX_LOADED_PAGES ==> {
                &&& final(self).queue() == old(self).queue()
                &&& final(self).level1() == old(self).level1()
                &&& final(self).level2() == old(self).level2()
                &&& evictions@ == Set::<usize>::empty()
            },
            old(self).queue().len() > MAX_LOADED_PAGES ==> {
                let n: int = old(self).queue().len() - (MAX_LOADED_PAGES - EVICTION_SLACK);
                let evicted = old(self).queue().subrange(0, n);
                &&& final(self).queue() == old(self).queue().subrange(n, old(self).queue().len() as int)
                &&& evictions@ == evicted.to_set()
                &&& forall|p: usize|
                    #[trigger] final(self).is_loaded(p) <==> (old(self).is_loaded(p)
                        && !evicted.contains(p))
                &&& forall|p: usize|
                    #[trigger] loaded_in(final(self).level2(), LEVEL2_SLICE_SIZE, p) <==> (
                    loaded_in(old(self).level2(), LEVEL2_SLICE_SIZE, p) && !evicted.contains(p))
            },
    {
        let mut evictions = BTreeSet::new();
        self.evict_pages_if_needed(&mut evictions);
        proof {
            if old(self).queue().len() > MAX_LOADED_PAGES {
                let n: int = old(self).queue().len() - (MAX_LOADED_PAGES - EVICTION_SLACK);
                assert(evictions@ =~= old(self).queue().subrange(0, n).to_set());
            }
        }
        evictions
    }

    /// Records pages `[start_page, end_page)` as resident, then evicts the
    /// oldest pages if too many are; returns the evicted pages.
    pub fn record_pages(&mut self, start_page: usize, end_page: usize) -> (evictions: BTreeSet<
        usize,
    >)
        requires
            old(self).wf(),
        ensures
            final(self).wf(),
            ({
                let q1 = old(self).queue() + page_range(start_page, end_page);
                &&& evictions@ == evicted_from(q1)
                &&& final(self).queue() == queue_after_eviction(q1)
                &&& forall|p: usize|
                    #[trigger] final(self).is_loaded(p) <==> ((old(self).is_loaded(p) || (start_page
                        <= p < end_page)) && !evictions@.contains(p))
            }),
            final(self).resident_pages().len() <= MAX_LOADED_PAGES,
    {
        self.mark_pages_as_read(start_page, end_page);
        let ghost h1 = *self;
        let evictions = self.evict_pages_if_needed2();
        proof {
            lemma_residency_bounded(self);
            let q1 = h1.queue();
            if q1.len() > MAX_LOADED_PAGES {
                let evicted = q1.subrange(0, q1.len() - (MAX_LOADED_PAGES - EVICTION_SLACK));
                assert forall|p: usize| evicted.to_set().contains(p) <==> evicted.contains(p) by {}
            }
            assert forall|p: usize|
                #[trigger] self.is_loaded(p) <==> ((old(self).is_loaded(p) || (start_page <= p
                    < end_page)) && !evictions@.contains(p)) by {
                assert(h1.is_loaded(p) <==> (old(self).is_loaded(p) || (start_page <= p
                    < end_page)));
            }
        }
        evictions
    }

    /// How many bytes to read for a fault at byte `offset`, where at least
    /// `actual_read_sz` bytes are wanted. The answer is advisory: it may
    /// reach past the end of the object.
    pub fn readahead_heuristic(&mut self, offset: usize, actual_read_sz: usize) -> (r: usize)
        requires
            old(self).wf(),
            offset + (LEVEL2_READAHEAD * LEVEL2_SLICE_SIZE + LEVEL1_SLICE_SIZE - 1) * PAGE_SIZE
                <= usize::MAX,
            offset + actual_read_sz + (LEVEL1_SLICE_SIZE - 1) * PAGE_SIZE <= usize::MAX,
        ensures
            *final(self) == *old(self),
            r == readahead_spec(old(self).level1(), old(self).level2(), offset, actual_read_sz),
    {
        let mut actual_read_sz: usize = actual_read_sz;
        let page: usize = offset / PAGE_SIZE;
        let slice1num: usize = page / LEVEL1_SLICE_SIZE;
        let slice2num: usize = page / LEVEL2_SLICE_SIZE;
        let slice1page: usize = page % LEVEL1_SLICE_SIZE;
        let slice2page: usize = page % LEVEL2_SLICE_SIZE;
        let fill1: bool = match self.level1slices.get(&slice1num) {
            Some(s) => s.would_fill(slice1page),
            None => false,
        };
        if fill1 {
            actual_read_sz = extend_readahead1(offset, PAGE_SIZE);
        }
        let fill2: bool = match self.level2slices.get(&slice2num) {
            Some(s) => s.would_fill(slice2page),
            None => false,
        };
        if fill2 {
            let big: usize = LEVEL2_READAHEAD * LEVEL2_SLICE_SIZE * PAGE_SIZE;
            if actual_read_sz < big {
                actual_read_sz = big;
            }
            actual_read_sz = roundup_slice1(offset, actual_read_sz);
        }
        actual_read_sz
    }
}

/// Rounds a read of `sz` bytes at `offset` so that its last page lands one
/// page before the end of a level-1 slice.
pub fn roundup_slice1(offset: usize, sz: usize) -> (r: usize)
    requires
        offset + sz >= 1,
        offset + sz + (LEVEL1_SLICE_SIZE - 1) * PAGE_SIZE <= usize::MAX,
    ensures
        r == roundup_slice1_spec(offset as int, sz as int),
{
    let final_page: usize = (offset + sz - 1) / PAGE_SIZE;
    let level1_page: usize = final_page % LEVEL1_SLICE_SIZE;
    if level1_page == LEVEL1_SLICE_SIZE - 2 {
        sz
    } else if level1_page == LEVEL1_SLICE_SIZE - 1 {
        sz + (LEVEL1_SLICE_SIZE - 1) * PAGE_SIZE
    } else {
        let missing_pages: usize = (LEVEL1_SLICE_SIZE - 2) - level1_page;
        sz + missing_pages * PAGE_SIZE
    }
}

/// Extends a read of `minsz` bytes at `offset` once a level-1 slice fills.
pub fn extend_readahead1(offset: usize, minsz: usize) -> (r: usize)
    requires
        minsz >= 1,
        offset + minsz <= usize::MAX,
        offset + (LEVEL1_READAHEAD * LEVEL1_SLICE_SIZE + LEVEL1_SLICE_SIZE - 1) * PAGE_SIZE
            <= usize::MAX,
    ensures
        r == extend_readahead1_spec(offset as int, minsz as int),
{
    let actual_read_sz: usize = LEVEL1_READAHEAD * LEVEL1_SLICE_SIZE * PAGE_SIZE;
    let minsz_page: usize = (offset + minsz - 1) / PAGE_SIZE;
    let minsz_level2_page: usize = minsz_page % LEVEL2_SLICE_SIZE;
    if minsz_level2_page == LEVEL2_SLICE_SIZE - 2 {
        return minsz;
    } else if minsz_level2_page < LEVEL2_SLICE_SIZE - 2 {
        let missing_pages: usize = (LEVEL2_SLICE_SIZE - 2) - minsz_level2_page;
        if minsz <= actual_read_sz && missing_pages <= (actual_read_sz - minsz) / PAGE_SIZE {
            return minsz + missing_pages * PAGE_SIZE;
        }
    }
    roundup_slice1(offset, actual_read_sz)
}

/// Largest read that the read-ahead rule asks for on its own:
/// `max(LEVEL1_READAHEAD * LEVEL1_SLICE_SIZE, LEVEL2_READAHEAD * LEVEL2_SLICE_SIZE)` pages.
pub open spec fn readahead_bound() -> int {
    let l1: int = LEVEL1_READAHEAD * LEVEL1_SLICE_SIZE;
    let l2: int = LEVEL2_READAHEAD * LEVEL2_SLICE_SIZE;
    (if l1 > l2 { l1 } else { l2 }) * PAGE_SIZE
}

/// A page count rounded up to whole pages.
pub open spec fn round_up_spec(n: int) -> int {
    if n % PAGE_SIZE as int == 0 {
        n
    } else {
        n + (PAGE_SIZE - n % PAGE_SIZE as int)
    }
}

/// The resident pages are all in the eviction queue, so there are never
/// more of them than queue entries; as `evict_pages_if_needed` leaves at
/// most `MAX_LOADED_PAGES` entries, no more pages than that stay resident
/// once a fault has been handled.
pub proof fn lemma_residency_bounded(h: &PageHeuristics)
    requires
        h.wf(),
    ensures
        h.resident_pages().finite(),
        h.resident_pages().len() <= h.queue().len(),
        h.queue().len() <= MAX_LOADED_PAGES ==> h.resident_pages().len() <= MAX_LOADED_PAGES,
{
    let q = h.queue();
    assert(h.resident_pages().subset_of(q.to_set())) by {
        assert forall|p: usize| h.resident_pages().contains(p) implies q.to_set().contains(p) by {
            assert(loaded_in(h.level1(), LEVEL1_SLICE_SIZE, p));
        }
    }
    q.lemma_cardinality_of_set();
    vstd::set_lib::lemma_len_subset(h.resident_pages(), q.to_set());
}

/// What well-formedness gives a caller: each recorded set holds only
/// in-slice offsets, both levels record the same pages, and every resident
/// page is in the eviction queue.
pub proof fn lemma_wf_facts(h: &PageHeuristics)
    requires
        h.wf(),
    ensures
        forall|k: usize, i: usize|
            h.level1().contains_key(k) && #[trigger] h.level1()[k].contains(i) ==> i
                < LEVEL1_SLICE_SIZE,
        forall|k: usize, i: usize|
            h.level2().contains_key(k) && #[trigger] h.level2()[k].contains(i) ==> i
                < LEVEL2_SLICE_SIZE,
        forall|p: usize|
            #[trigger] h.is_loaded(p) <==> loaded_in(h.level2(), LEVEL2_SLICE_SIZE, p),
        forall|p: usize| #[trigger] h.is_loaded(p) ==> h.queue().contains(p),
{
}

/// Rounding to a level-1 slice keeps a read a whole number of pages.
pub proof fn lemma_roundup_slice1_pages(offset: int, size: int)
    ensures
        roundup_slice1_spec(offset, size) % PAGE_SIZE as int == size % PAGE_SIZE as int,
{
}

/// Whenever the minimum read is a whole number of pages, so is the
/// recommendation; capped at the end of an object that reaches past
/// `offset` and rounded up to whole pages, the read stays a whole number of
/// pages and at least one page long.
pub proof fn lemma_readahead_whole_pages(
    level1: Map<usize, Set<usize>>,
    level2: Map<usize, Set<usize>>,
    offset: usize,
    min_bytes: usize,
    object_size: usize,
)
    requires
        min_bytes % PAGE_SIZE == 0,
    ensures
        readahead_spec(level1, level2, offset, min_bytes) % PAGE_SIZE as int == 0,
        ({
            let r: int = readahead_spec(level1, level2, offset, min_bytes);
            let capped: int = if offset + r > object_size { object_size - offset } else { r };
            round_up_spec(capped) % PAGE_SIZE as int == 0
        }),
{
    let page: usize = (offset / PAGE_SIZE) as usize;
    let big: int = LEVEL2_READAHEAD * LEVEL2_SLICE_SIZE * PAGE_SIZE;
    lemma_roundup_slice1_pages(offset as int, (LEVEL1_READAHEAD * LEVEL1_SLICE_SIZE * PAGE_SIZE) as int);
    let a: int = if would_fill(level1, LEVEL1_SLICE_SIZE, page) {
        extend_readahead1_spec(offset as int, PAGE_SIZE as int)
    } else {
        min_bytes as int
    };
    assert(a % PAGE_SIZE as int == 0);
    lemma_roundup_slice1_pages(offset as int, if a > big { a } else { big as int });
}

/// Unless a level-2 slice fills at a fault that is not the page-aligned
/// last page of a level-1 slice, the recommendation is at most
/// `readahead_bound()` for a minimum read that is itself within it.
pub proof fn lemma_readahead_bounded(
    level1: Map<usize, Set<usize>>,
    level2: Map<usize, Set<usize>>,
    offset: usize,
    min_bytes: usize,
)
    requires
        min_bytes <= readahead_bound(),
        would_fill(level2, LEVEL2_SLICE_SIZE, (offset / PAGE_SIZE) as usize) ==> (offset
            % PAGE_SIZE == 0 && (offset / PAGE_SIZE) % LEVEL1_SLICE_SIZE == LEVEL1_SLICE_SIZE - 1),
    ensures
        readahead_spec(level1, level2, offset, min_bytes) <= readahead_bound(),
{
}

/// For a minimum read of one page, the recommendation is at least one page.
pub proof fn lemma_readahead_at_least_page(
    level1: Map<usize, Set<usize>>,
    level2: Map<usize, Set<usize>>,
    offset: usize,
)
    ensures
        readahead_spec(level1, level2, offset, PAGE_SIZE) >= PAGE_SIZE,
{
}

} // verus!
