//! Huge-page memory reservation.
//!
//! A requested byte total is covered greedily from a fixed, descending table
//! of supported huge-page sizes: the largest size that still fits the
//! remaining budget is attempted first, every success restarts the scan from
//! the largest size, and a full pass in which nothing could be mapped is
//! fatal.  The mapping call itself is issued by the caller; the [`Reserver`]
//! state machine makes every decision and accounts for every outcome, so the
//! greedy policy and its bookkeeping are verified whatever the mapping calls
//! return.

use vstd::arithmetic::div_mod::lemma_mod_multiples_vanish;
use vstd::prelude::*;

use crate::error::MemInitError;
use crate::protocol::UserMemoryRegion;

verus! {

/// Number of supported huge-page sizes.
pub const NUM_PAGE_SIZES: usize = 9;

/// The smallest supported huge-page size (2 MiB), which every entry of the
/// size table is a multiple of.
pub const SMALLEST_PAGE_SIZE: u64 = 0x20_0000;

/// Flags value of a freshly reserved memory region.
pub const NE_DEFAULT_MEMORY_REGION: u64 = 0;

/// The descending table of supported huge-page sizes, in bytes: 16 GiB,
/// 2 GiB, 1 GiB, 512 MiB, 256 MiB, 32 MiB, 16 MiB, 8 MiB, 2 MiB.
/// Indices at or beyond the table's end yield the smallest size.
pub open spec fn spec_page_size(i: int) -> u64 {
    if i == 0 {
        0x4_0000_0000
    } else if i == 1 {
        0x8000_0000
    } else if i == 2 {
        0x4000_0000
    } else if i == 3 {
        0x2000_0000
    } else if i == 4 {
        0x1000_0000
    } else if i == 5 {
        0x200_0000
    } else if i == 6 {
        0x100_0000
    } else if i == 7 {
        0x80_0000
    } else {
        0x20_0000
    }
}

/// The memory-mapping flag that selects the huge-page size of table entry
/// `i`: the base-two logarithm of the size, shifted into the high flag bits
/// reserved for the huge-page size encoding.
pub open spec fn spec_map_huge_flag(i: int) -> u32 {
    if i == 0 {
        34u32 << 26
    } else if i == 1 {
        31u32 << 26
    } else if i == 2 {
        30u32 << 26
    } else if i == 3 {
        29u32 << 26
    } else if i == 4 {
        28u32 << 26
    } else if i == 5 {
        25u32 << 26
    } else if i == 6 {
        24u32 << 26
    } else if i == 7 {
        23u32 << 26
    } else {
        21u32 << 26
    }
}

/// Size in bytes of table entry `i`.
pub fn page_size(i: usize) -> (s: u64)
    requires
        i < NUM_PAGE_SIZES,
    ensures
        s == spec_page_size(i as int),
{
    if i == 0 {
        0x4_0000_0000
    } else if i == 1 {
        0x8000_0000
    } else if i == 2 {
        0x4000_0000
    } else if i == 3 {
        0x2000_0000
    } else if i == 4 {
        0x1000_0000
    } else if i == 5 {
        0x200_0000
    } else if i == 6 {
        0x100_0000
    } else if i == 7 {
        0x80_0000
    } else {
        0x20_0000
    }
}

/// Memory-mapping huge-page-size flag of table entry `i`.
pub fn map_huge_flag(i: usize) -> (f: u32)
    requires
        i < NUM_PAGE_SIZES,
    ensures
        f == spec_map_huge_flag(i as int),
{
    if i == 0 {
        34u32 << 26
    } else if i == 1 {
        31u32 << 26
    } else if i == 2 {
        30u32 << 26
    } else if i == 3 {
        29u32 << 26
    } else if i == 4 {
        28u32 << 26
    } else if i == 5 {
        25u32 << 26
    } else if i == 6 {
        24u32 << 26
    } else if i == 7 {
        23u32 << 26
    } else {
        21u32 << 26
    }
}

/// Every table entry is a positive multiple of the smallest size.
pub proof fn lemma_page_size_aligned(i: int)
    ensures
        spec_page_size(i) % SMALLEST_PAGE_SIZE == 0,
        SMALLEST_PAGE_SIZE <= spec_page_size(i),
{
}

/// `s` is one of the supported huge-page sizes.
pub open spec fn is_page_size(s: u64) -> bool {
    exists|i: int| 0 <= i < NUM_PAGE_SIZES && spec_page_size(i) == s
}

/// Sum of a sequence of region sizes.
pub open spec fn spec_sum_sizes(sizes: Seq<u64>) -> int
    decreases sizes.len(),
{
    if sizes.len() == 0 {
        0
    } else {
        spec_sum_sizes(sizes.drop_last()) + sizes.last()
    }
}

/// Sum of the sizes of a sequence of regions.
pub open spec fn spec_regions_total(regions: Seq<UserMemoryRegion>) -> int
    decreases regions.len(),
{
    if regions.len() == 0 {
        0
    } else {
        spec_regions_total(regions.drop_last()) + regions.last().size
    }
}

/// An ordered set of reserved enclave memory regions; the order is the
/// insertion order of the reservation scan, and image placement fills the
/// regions in exactly this order.
pub struct UserMemoryRegions(Vec<UserMemoryRegion>);

impl View for UserMemoryRegions {
    type V = Seq<UserMemoryRegion>;

    closed spec fn view(&self) -> Seq<UserMemoryRegion> {
        self.0@
    }
}

impl UserMemoryRegions {
    /// Borrow the regions, in insertion order.
    pub fn inner_ref(&self) -> (r: &Vec<UserMemoryRegion>)
        ensures
            r@ == self@,
    {
        &self.0
    }

    /// The region sizes, in insertion order.
    pub fn region_sizes(&self) -> (r: Vec<u64>)
        ensures
            r@.len() == self@.len(),
            forall|i: int| 0 <= i < self@.len() ==> #[trigger] r@[i] == self@[i].size,
    {
        let mut sizes: Vec<u64> = Vec::new();
        let n = self.0.len();
        let mut i: usize = 0;
        while i < n
            invariant
                i <= n,
                n == self@.len(),
                self@ == self.0@,
                sizes@.len() == i,
                forall|k: int| 0 <= k < i ==> #[trigger] sizes@[k] == self@[k].size,
            decreases n - i,
        {
            sizes.push(self.0[i].size);
            i = i + 1;
        }
        sizes
    }
}

/// What the reservation scan asks for next.
#[derive(Clone, Copy, Debug, PartialEq, Eq, Structural)]
pub enum ReserveStep {
    /// Attempt one huge-page mapping of the size at this table index.
    Try(usize),
    /// The requested total is fully covered.
    Done,
    /// Nothing in the table could be mapped during a full pass: no further
    /// combination exists, and the reservation fails.
    Fail,
}

/// First table index at or after `from` whose size fits the remaining
/// budget.  The table is descending, so this is the largest fitting size not
/// yet tried in the current pass.
pub open spec fn spec_first_fit(remaining: int, from: int) -> Option<int>
    decreases NUM_PAGE_SIZES - from,
{
    if from >= NUM_PAGE_SIZES {
        Option::None
    } else if spec_page_size(from) <= remaining {
        Option::Some(from)
    } else {
        spec_first_fit(remaining, from + 1)
    }
}

/// A found fit lies in the table at or after the scan start, and its size
/// fits the remaining budget.
pub proof fn lemma_first_fit_some(remaining: int, from: int, i: int)
    requires
        spec_first_fit(remaining, from) == Option::Some(i),
    ensures
        from <= i < NUM_PAGE_SIZES,
        spec_page_size(i) <= remaining,
    decreases NUM_PAGE_SIZES - from,
{
    if from < NUM_PAGE_SIZES && spec_page_size(from) > remaining {
        lemma_first_fit_some(remaining, from + 1, i);
    }
}

/// The greedy huge-page reservation scan, one mapping attempt at a time.
///
/// The caller repeatedly asks for the next step, performs the mapping attempt
/// it names, and reports the outcome back; the accounting guarantees that a
/// finished reservation covers the requested total exactly.
pub struct Reserver {
    total: u64,
    remaining: u64,
    next_index: usize,
    regions: Vec<UserMemoryRegion>,
}

impl Reserver {
    /// The requested byte total.
    pub closed spec fn total_bytes(&self) -> u64 {
        self.total
    }

    /// The bytes not yet covered by a reserved region.
    pub closed spec fn remaining_bytes(&self) -> u64 {
        self.remaining
    }

    /// The next table index the current pass will try.
    pub closed spec fn scan_index(&self) -> int {
        self.next_index as int
    }

    /// The regions reserved so far, in insertion order.
    pub closed spec fn regions_seq(&self) -> Seq<UserMemoryRegion> {
        self.regions@
    }

    /// The reservation bookkeeping is consistent: the reserved regions plus
    /// the remaining budget account for the requested total exactly, every
    /// region has a table size and default flags, and the remaining budget
    /// keeps the total's alignment remainder.
    pub open spec fn wf(&self) -> bool {
        &&& self.remaining_bytes() + spec_regions_total(self.regions_seq()) == self.total_bytes()
        &&& 0 <= self.scan_index() <= NUM_PAGE_SIZES
        &&& self.remaining_bytes() % SMALLEST_PAGE_SIZE == self.total_bytes() % SMALLEST_PAGE_SIZE
        &&& forall|k: int|
            0 <= k < self.regions_seq().len() ==> is_page_size(#[trigger] self.regions_seq()[k].size)
                && self.regions_seq()[k].flags == NE_DEFAULT_MEMORY_REGION
    }

    /// What the scan asks for next: done when the budget is covered, the
    /// largest not-yet-tried fitting size otherwise, and failure when the
    /// current pass has run out of sizes to try.
    pub open spec fn spec_step(&self) -> ReserveStep {
        if self.remaining_bytes() == 0 {
            ReserveStep::Done
        } else {
            match spec_first_fit(self.remaining_bytes() as int, self.scan_index()) {
                Option::Some(i) => ReserveStep::Try(i as usize),
                Option::None => ReserveStep::Fail,
            }
        }
    }

    /// Begin a reservation of `total_bytes` bytes.
    pub fn new(total_bytes: u64) -> (r: Reserver)
        ensures
            r.wf(),
            r.total_bytes() == total_bytes,
            r.remaining_bytes() == total_bytes,
            r.scan_index() == 0,
            r.regions_seq() =~= Seq::<UserMemoryRegion>::empty(),
    {
        Reserver { total: total_bytes, remaining: total_bytes, next_index: 0, regions: Vec::new() }
    }

    /// Begin a reservation for a total given in MiB.  A total too large to
    /// count in bytes cannot be reserved and fails like an exhausted page
    /// pool does.
    pub fn new_mib(size_mib: usize) -> (r: Result<Reserver, MemInitError>)
        ensures
            size_mib * 0x10_0000 <= u64::MAX ==> (r matches Ok(res) && res.wf()
                && res.total_bytes() == size_mib * 0x10_0000 && res.remaining_bytes()
                == res.total_bytes() && res.scan_index() == 0 && res.regions_seq() =~= Seq::<
                UserMemoryRegion,
            >::empty()),
            size_mib * 0x10_0000 > u64::MAX ==> (r matches Err(e) && e is NoHugePageFound),
    {
        if size_mib as u64 > u64::MAX / 0x10_0000 {
            proof {
                assert(size_mib * 0x10_0000 > u64::MAX) by (nonlinear_arith)
                    requires
                        size_mib > u64::MAX / 0x10_0000,
                        u64::MAX / 0x10_0000 == 0xFFF_FFFF_FFFF,
                ;
            }
            Err(MemInitError::NoHugePageFound)
        } else {
            proof {
                assert(size_mib * 0x10_0000 <= u64::MAX) by (nonlinear_arith)
                    requires
                        size_mib <= u64::MAX / 0x10_0000,
                        u64::MAX / 0x10_0000 == 0xFFF_FFFF_FFFF,
                ;
            }
            Ok(Self::new((size_mib as u64) * 0x10_0000))
        }
    }

    /// The next step of the scan.
    pub fn next_step(&self) -> (s: ReserveStep)
        requires
            self.wf(),
        ensures
            s == self.spec_step(),
    {
        if self.remaining == 0 {
            return ReserveStep::Done;
        }
        let mut i: usize = self.next_index;
        while i < NUM_PAGE_SIZES
            invariant
                self.next_index <= i <= NUM_PAGE_SIZES,
                self.remaining > 0,
                spec_first_fit(self.remaining as int, self.scan_index()) == spec_first_fit(
                    self.remaining as int,
                    i as int,
                ),
            decreases NUM_PAGE_SIZES - i,
        {
            if page_size(i) <= self.remaining {
                return ReserveStep::Try(i);
            }
            i = i + 1;
        }
        ReserveStep::Fail
    }

    /// Record that the mapping attempt named by the last [`Self::next_step`]
    /// succeeded at userspace address `uaddr`: the region joins the set, its
    /// size leaves the budget, and the next pass restarts at the largest
    /// size.
    pub fn map_succeeded(&mut self, index: usize, uaddr: u64)
        requires
            old(self).wf(),
            old(self).spec_step() == ReserveStep::Try(index),
        ensures
            final(self).wf(),
            final(self).total_bytes() == old(self).total_bytes(),
            final(self).remaining_bytes() == old(self).remaining_bytes() - spec_page_size(
                index as int,
            ),
            final(self).scan_index() == 0,
            final(self).regions_seq() =~= old(self).regions_seq().push(
                UserMemoryRegion {
                    flags: NE_DEFAULT_MEMORY_REGION,
                    size: spec_page_size(index as int),
                    uaddr: uaddr,
                },
            ),
    {
        proof {
            let rem = old(self).remaining_bytes() as int;
            let scan = old(self).scan_index();
            match spec_first_fit(rem, scan) {
                Option::Some(v) => {
                    lemma_first_fit_some(rem, scan, v);
                    assert(v == index as int);
                },
                Option::None => {
                    assert(false);
                },
            }
        }
        let size = page_size(index);
        let region = UserMemoryRegion { flags: NE_DEFAULT_MEMORY_REGION, size: size, uaddr: uaddr };
        proof {
            let pushed = self.regions@.push(region);
            assert(pushed.drop_last() =~= self.regions@);
            lemma_page_size_aligned(index as int);
            lemma_mod_multiples_vanish(
                -((size / SMALLEST_PAGE_SIZE) as int),
                self.remaining as int,
                SMALLEST_PAGE_SIZE as int,
            );
            assert(SMALLEST_PAGE_SIZE * ((size / SMALLEST_PAGE_SIZE) as int) == size) by (
            nonlinear_arith)
                requires
                    size % SMALLEST_PAGE_SIZE == 0,
                    SMALLEST_PAGE_SIZE > 0,
            ;
        }
        self.regions.push(region);
        self.remaining = self.remaining - size;
        self.next_index = 0;
    }

    /// Record that the mapping attempt named by the last [`Self::next_step`]
    /// failed: the current pass moves on to the next smaller size without
    /// consuming any budget.
    pub fn map_failed(&mut self, index: usize)
        requires
            old(self).wf(),
            old(self).spec_step() == ReserveStep::Try(index),
        ensures
            final(self).wf(),
            final(self).total_bytes() == old(self).total_bytes(),
            final(self).remaining_bytes() == old(self).remaining_bytes(),
            final(self).scan_index() == index + 1,
            final(self).regions_seq() == old(self).regions_seq(),
    {
        proof {
            let rem = old(self).remaining_bytes() as int;
            let scan = old(self).scan_index();
            match spec_first_fit(rem, scan) {
                Option::Some(v) => {
                    lemma_first_fit_some(rem, scan, v);
                    assert(v == index as int);
                },
                Option::None => {
                    assert(false);
                },
            }
        }
        self.next_index = index + 1;
    }

    /// Close the scan once it has reached its end: a covered budget yields
    /// the region set, whose sizes sum to the requested total exactly, and a
    /// failed pass yields the fatal reservation error.
    pub fn finish(self) -> (r: Result<UserMemoryRegions, MemInitError>)
        requires
            self.wf(),
            self.spec_step() is Done || self.spec_step() is Fail,
        ensures
            self.spec_step() is Done ==> (r matches Ok(regions) && regions@ == self.regions_seq()
                && spec_regions_total(regions@) == self.total_bytes()),
            self.spec_step() is Fail ==> (r matches Err(e) && e is NoHugePageFound),
    {
        if self.remaining == 0 {
            Ok(UserMemoryRegions(self.regions))
        } else {
            Err(MemInitError::NoHugePageFound)
        }
    }
}

/// A reservation whose total is not a multiple of the smallest huge-page
/// size can never be covered: the scan never reports completion for it.
pub proof fn lemma_unaligned_total_never_done(r: &Reserver)
    requires
        r.wf(),
        r.total_bytes() % SMALLEST_PAGE_SIZE != 0,
    ensures
        !(r.spec_step() is Done),
{
}

/// First table index at or after `from` that is marked available and whose
/// size fits the remaining budget.
pub open spec fn spec_avail_first_fit(remaining: int, avail: Seq<bool>, from: int) -> Option<int>
    decreases NUM_PAGE_SIZES - from,
{
    if from >= NUM_PAGE_SIZES {
        Option::None
    } else if avail[from] && spec_page_size(from) <= remaining {
        Option::Some(from)
    } else {
        spec_avail_first_fit(remaining, avail, from + 1)
    }
}

/// A found available fit lies in the table at or after the scan start, is
/// marked available, and its size fits the remaining budget.
pub proof fn lemma_avail_first_fit_some(remaining: int, avail: Seq<bool>, from: int, i: int)
    requires
        spec_avail_first_fit(remaining, avail, from) == Option::Some(i),
    ensures
        from <= i < NUM_PAGE_SIZES,
        avail[i],
        spec_page_size(i) <= remaining,
    decreases NUM_PAGE_SIZES - from,
{
    if from < NUM_PAGE_SIZES && !(avail[from] && spec_page_size(from) <= remaining) {
        lemma_avail_first_fit_some(remaining, avail, from + 1, i);
    }
}

/// The greedy selection policy over a fixed availability of page sizes: take
/// the largest available size that fits the remainder, restart from the
/// largest after every take, and fail once nothing available fits a nonzero
/// remainder.
pub open spec fn spec_greedy_plan(remaining: nat, avail: Seq<bool>) -> Result<Seq<u64>, MemInitError>
    decreases remaining,
{
    if remaining == 0 {
        Result::Ok(Seq::<u64>::empty())
    } else {
        match spec_avail_first_fit(remaining as int, avail, 0) {
            Option::None => Result::Err(MemInitError::NoHugePageFound),
            Option::Some(i) => {
                let s = spec_page_size(i);
                if 0 < s <= remaining {
                    match spec_greedy_plan((remaining - s) as nat, avail) {
                        Result::Ok(rest) => Result::Ok(seq![s] + rest),
                        Result::Err(e) => Result::Err(e),
                    }
                } else {
                    // A found fit always satisfies the guard above; the
                    // branch only keeps the recursion visibly bounded.
                    Result::Err(MemInitError::NoHugePageFound)
                }
            },
        }
    }
}

/// Sum of a single size.
pub proof fn lemma_sum_sizes_singleton(s: u64)
    ensures
        spec_sum_sizes(seq![s]) == s,
{
    let single = seq![s];
    assert(single.drop_last() =~= Seq::<u64>::empty());
    assert(single.last() == s);
    assert(spec_sum_sizes(single.drop_last()) == 0);
}

/// Sum of a concatenation is the sum of the parts.
pub proof fn lemma_sum_sizes_concat(a: Seq<u64>, b: Seq<u64>)
    ensures
        spec_sum_sizes(a + b) == spec_sum_sizes(a) + spec_sum_sizes(b),
    decreases b.len(),
{
    if b.len() == 0 {
        assert(a + b =~= a);
    } else {
        lemma_sum_sizes_concat(a, b.drop_last());
        assert((a + b).drop_last() =~= a + b.drop_last());
        assert((a + b).last() == b.last());
    }
}

/// `s` is one of the supported huge-page sizes and is marked available.
pub open spec fn is_available_page_size(s: u64, avail: Seq<bool>) -> bool {
    exists|i: int| 0 <= i < NUM_PAGE_SIZES && spec_page_size(i) == s && avail[i]
}

/// `sizes` decomposes `total` exactly into available huge-page sizes.
pub open spec fn is_exact_decomposition(sizes: Seq<u64>, total: nat, avail: Seq<bool>) -> bool {
    spec_sum_sizes(sizes) == total && forall|k: int|
        0 <= k < sizes.len() ==> is_available_page_size(#[trigger] sizes[k], avail)
}

/// A successful greedy selection is an exact decomposition: its sizes sum to
/// the requested total, and each of them is an available huge-page size.
pub proof fn lemma_greedy_plan_exact(total: nat, avail: Seq<bool>, sizes: Seq<u64>)
    requires
        spec_greedy_plan(total, avail) == Result::<Seq<u64>, MemInitError>::Ok(sizes),
    ensures
        is_exact_decomposition(sizes, total, avail),
    decreases total,
{
    if total == 0 {
        assert(sizes =~= Seq::<u64>::empty());
    } else {
        match spec_avail_first_fit(total as int, avail, 0) {
            Option::Some(i) => {
                lemma_avail_first_fit_some(total as int, avail, 0, i);
                let s = spec_page_size(i);
                match spec_greedy_plan((total - s) as nat, avail) {
                    Result::Ok(rest) => {
                        lemma_greedy_plan_exact((total - s) as nat, avail, rest);
                        lemma_sum_sizes_concat(seq![s], rest);
                        lemma_sum_sizes_singleton(s);
                        assert(sizes == seq![s] + rest);
                        assert forall|k: int| 0 <= k < sizes.len() implies is_available_page_size(
                            #[trigger] sizes[k],
                            avail,
                        ) by {
                            if k == 0 {
                                assert(sizes[0] == s);
                            } else {
                                assert(sizes[k] == rest[k - 1]);
                            }
                        }
                    },
                    Result::Err(_) => {
                        assert(false);
                    },
                }
            },
            Option::None => {
                assert(false);
            },
        }
    }
}

/// Every supported page size is a multiple of every smaller one: the table
/// forms a divisibility chain.
pub proof fn lemma_page_size_chain(i: int, j: int)
    requires
        0 <= i <= j < NUM_PAGE_SIZES,
    ensures
        spec_page_size(i) as int % (spec_page_size(j) as int) == 0,
{
    if j == 0 {
        assert(spec_page_size(i) as int % 0x4_0000_0000int == 0);
    } else if j == 1 {
        assert(spec_page_size(i) as int % 0x8000_0000int == 0);
    } else if j == 2 {
        assert(spec_page_size(i) as int % 0x4000_0000int == 0);
    } else if j == 3 {
        assert(spec_page_size(i) as int % 0x2000_0000int == 0);
    } else if j == 4 {
        assert(spec_page_size(i) as int % 0x1000_0000int == 0);
    } else if j == 5 {
        assert(spec_page_size(i) as int % 0x200_0000int == 0);
    } else if j == 6 {
        assert(spec_page_size(i) as int % 0x100_0000int == 0);
    } else if j == 7 {
        assert(spec_page_size(i) as int % 0x80_0000int == 0);
    } else {
        assert(spec_page_size(i) as int % 0x20_0000int == 0);
    }
}

/// The largest table index below `below` that is marked available: the
/// smallest available page size, since the table is descending.
pub open spec fn spec_smallest_avail(avail: Seq<bool>, below: int) -> Option<int>
    decreases below,
{
    if below <= 0 {
        Option::None
    } else if avail[below - 1] {
        Option::Some(below - 1)
    } else {
        spec_smallest_avail(avail, below - 1)
    }
}

/// What the smallest-available scan finds: an available index with nothing
/// available after it, and nothing at all when it finds none.
pub proof fn lemma_smallest_avail(avail: Seq<bool>, below: int)
    requires
        0 <= below,
    ensures
        spec_smallest_avail(avail, below) matches Some(j) ==> 0 <= j < below && avail[j] && (
        forall|i: int| j < i < below ==> !avail[i]),
        spec_smallest_avail(avail, below) is None ==> forall|i: int| 0 <= i < below ==> !avail[i],
    decreases below,
{
    if below > 0 && !avail[below - 1] {
        lemma_smallest_avail(avail, below - 1);
    }
}

/// A sum of available page sizes is a multiple of any positive `m` that
/// divides every available size.
pub proof fn lemma_sum_multiple(sizes: Seq<u64>, avail: Seq<bool>, m: int)
    requires
        m > 0,
        forall|k: int| 0 <= k < sizes.len() ==> is_available_page_size(#[trigger] sizes[k], avail),
        forall|i: int|
            0 <= i < NUM_PAGE_SIZES && avail[i] ==> #[trigger] spec_page_size(i) as int % m == 0,
    ensures
        spec_sum_sizes(sizes) % m == 0,
    decreases sizes.len(),
{
    if sizes.len() == 0 {
        assert(spec_sum_sizes(sizes) == 0);
        assert(0int % m == 0) by (nonlinear_arith)
            requires
                m > 0,
        ;
    } else {
        let rest = sizes.drop_last();
        assert(forall|k: int|
            0 <= k < rest.len() ==> is_available_page_size(#[trigger] rest[k], avail));
        lemma_sum_multiple(rest, avail, m);
        let last = sizes.last();
        assert(is_available_page_size(last, avail));
        let i = choose|i: int|
            0 <= i < NUM_PAGE_SIZES && spec_page_size(i) == last && avail[i];
        assert(last as int % m == 0);
        let a = spec_sum_sizes(rest);
        assert(a == m * (a / m)) by (nonlinear_arith)
            requires
                a % m == 0,
                m > 0,
        ;
        lemma_mod_multiples_vanish(a / m, last as int, m);
        assert((m * (a / m) + last as int) % m == last as int % m);
        assert(spec_sum_sizes(sizes) == a + last);
    }
}

/// When some available size fits the remaining budget, the availability scan
/// finds one.
pub proof fn lemma_avail_first_fit_finds(remaining: int, avail: Seq<bool>, from: int, i: int)
    requires
        from <= i < NUM_PAGE_SIZES,
        avail[i],
        spec_page_size(i) <= remaining,
    ensures
        spec_avail_first_fit(remaining, avail, from) is Some,
    decreases NUM_PAGE_SIZES - from,
{
    if !(avail[from] && spec_page_size(from) <= remaining) {
        lemma_avail_first_fit_finds(remaining, avail, from + 1, i);
    }
}

/// A total that is a multiple of the smallest available page size is served
/// by the greedy selection.  The divisibility chain carries the argument:
/// every selected size is a multiple of the smallest available one, so the
/// remainder keeps that alignment, and while it is nonzero the smallest
/// available size always fits.
pub proof fn lemma_aligned_total_succeeds(total: nat, avail: Seq<bool>, j: int)
    requires
        0 <= j < NUM_PAGE_SIZES,
        avail[j],
        forall|i: int| j < i < NUM_PAGE_SIZES ==> !avail[i],
        total as int % (spec_page_size(j) as int) == 0,
    ensures
        spec_greedy_plan(total, avail) is Ok,
    decreases total,
{
    if total == 0 {
    } else {
        let m = spec_page_size(j) as int;
        assert(total as int >= m) by (nonlinear_arith)
            requires
                total as int % m == 0,
                total > 0,
                m > 0,
        ;
        lemma_avail_first_fit_finds(total as int, avail, 0, j);
        match spec_avail_first_fit(total as int, avail, 0) {
            Option::Some(picked) => {
                lemma_avail_first_fit_some(total as int, avail, 0, picked);
                let s = spec_page_size(picked) as int;
                assert(picked <= j);
                lemma_page_size_chain(picked, j);
                assert(s == m * (s / m)) by (nonlinear_arith)
                    requires
                        s % m == 0,
                        m > 0,
                ;
                lemma_mod_multiples_vanish(-(s / m), total as int, m);
                lemma_aligned_total_succeeds((total - s) as nat, avail, j);
            },
            Option::None => {
                assert(false);
            },
        }
    }
}

/// Whenever the requested total is an exact sum of available huge-page
/// sizes, the greedy selection succeeds, and the sizes it selects sum to the
/// request exactly; their count is the greedy policy's own, the selection
/// being the policy by definition.
pub proof fn lemma_exact_sum_is_served(total: nat, avail: Seq<bool>, sizes: Seq<u64>)
    requires
        is_exact_decomposition(sizes, total, avail),
    ensures
        spec_greedy_plan(total, avail) is Ok,
        spec_sum_sizes(spec_greedy_plan(total, avail)->Ok_0) == total,
{
    if total == 0 {
        assert(spec_greedy_plan(total, avail) == Result::<Seq<u64>, MemInitError>::Ok(
            Seq::<u64>::empty(),
        ));
        assert(spec_sum_sizes(Seq::<u64>::empty()) == 0);
    } else {
        assert(sizes.len() > 0);
        assert(is_available_page_size(sizes[0], avail));
        let witness = choose|i: int|
            0 <= i < NUM_PAGE_SIZES && spec_page_size(i) == sizes[0] && avail[i];
        lemma_smallest_avail(avail, NUM_PAGE_SIZES as int);
        match spec_smallest_avail(avail, NUM_PAGE_SIZES as int) {
            Option::Some(j) => {
                let m = spec_page_size(j) as int;
                assert forall|i: int|
                    0 <= i < NUM_PAGE_SIZES && avail[i] implies #[trigger] spec_page_size(i) as int
                    % m == 0 by {
                    assert(i <= j);
                    lemma_page_size_chain(i, j);
                }
                lemma_page_size_aligned(j);
                lemma_sum_multiple(sizes, avail, m);
                lemma_aligned_total_succeeds(total, avail, j);
            },
            Option::None => {
                assert(!avail[witness]);
                assert(false);
            },
        }
        lemma_greedy_plan_exact(total, avail, spec_greedy_plan(total, avail)->Ok_0);
    }
}

/// When no exact decomposition of the total into available huge-page sizes
/// exists at all, the greedy selection fails.
pub proof fn lemma_no_decomposition_means_failure(total: nat, avail: Seq<bool>)
    requires
        !exists|sizes: Seq<u64>| is_exact_decomposition(sizes, total, avail),
    ensures
        spec_greedy_plan(total, avail) is Err,
{
    match spec_greedy_plan(total, avail) {
        Result::Ok(sizes) => {
            lemma_greedy_plan_exact(total, avail, sizes);
            assert(is_exact_decomposition(sizes, total, avail));
            assert(false);
        },
        Result::Err(_) => {},
    }
}

/// Run the greedy selection policy for `total_bytes` over the given
/// availability of the page-size table, yielding the exact region sizes the
/// reservation scan would produce if precisely the available sizes can be
/// mapped.
pub fn plan_regions(total_bytes: u64, available: &Vec<bool>) -> (r: Result<Vec<u64>, MemInitError>)
    requires
        available@.len() == NUM_PAGE_SIZES,
    ensures
        spec_greedy_plan(total_bytes as nat, available@) == (match r {
            Result::Ok(sizes) => Result::Ok(sizes@),
            Result::Err(e) => Result::<Seq<u64>, MemInitError>::Err(e),
        }),
{
    let mut remaining: u64 = total_bytes;
    let mut out: Vec<u64> = Vec::new();
    while remaining > 0
        invariant
            available@.len() == NUM_PAGE_SIZES,
            spec_greedy_plan(total_bytes as nat, available@) == (match spec_greedy_plan(
                remaining as nat,
                available@,
            ) {
                Result::Ok(rest) => Result::<Seq<u64>, MemInitError>::Ok(out@ + rest),
                Result::Err(e) => Result::<Seq<u64>, MemInitError>::Err(e),
            }),
        decreases remaining,
    {
        let mut i: usize = 0;
        let mut found: Option<usize> = Option::None;
        while i < NUM_PAGE_SIZES
            invariant_except_break
                found is None,
                spec_avail_first_fit(remaining as int, available@, 0) == spec_avail_first_fit(
                    remaining as int,
                    available@,
                    i as int,
                ),
            invariant
                available@.len() == NUM_PAGE_SIZES,
                i <= NUM_PAGE_SIZES,
                remaining > 0,
            ensures
                match found {
                    Option::Some(j) => spec_avail_first_fit(remaining as int, available@, 0)
                        == Option::Some(j as int),
                    Option::None => spec_avail_first_fit(remaining as int, available@, 0)
                        is None,
                },
            decreases NUM_PAGE_SIZES - i,
        {
            if available[i] && page_size(i) <= remaining {
                found = Option::Some(i);
                break ;
            }
            i = i + 1;
        }
        match found {
            Option::None => {
                return Result::Err(MemInitError::NoHugePageFound);
            },
            Option::Some(j) => {
                proof {
                    lemma_avail_first_fit_some(remaining as int, available@, 0, j as int);
                }
                let s = page_size(j);
                let ghost prev_out = out@;
                let ghost prev_remaining = remaining as nat;
                out.push(s);
                remaining = remaining - s;
                proof {
                    let srest = spec_greedy_plan(remaining as nat, available@);
                    assert(spec_greedy_plan(prev_remaining, available@) == (match srest {
                        Result::Ok(rest) => Result::<Seq<u64>, MemInitError>::Ok(
                            seq![s as u64] + rest,
                        ),
                        Result::Err(e) => Result::<Seq<u64>, MemInitError>::Err(e),
                    }));
                    match srest {
                        Result::Ok(rest) => {
                            assert(prev_out + (seq![s as u64] + rest) =~= out@ + rest);
                        },
                        Result::Err(_) => {},
                    }
                }
            },
        }
    }
    proof {
        assert(out@ + Seq::<u64>::empty() =~= out@);
    }
    Result::Ok(out)
}

} // verus!
