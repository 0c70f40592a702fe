//! Image placement across a sequence of memory regions.
//!
//! The regions form one logical flat address space in insertion order.  An
//! image of a known length must occupy exactly the logical byte range
//! `[offset, offset + image_len)`: each region that intersects the range
//! receives the matching slice of the image, split at region boundaries,
//! and every byte outside the range is left untouched.  All offset
//! arithmetic detects overflow and fails instead of wrapping.

use vstd::pervasive::VecAdditionalExecFns;
use vstd::prelude::*;

use crate::error::MemInitError;

verus! {

/// One bounded write of image bytes into one region: `amount` bytes of the
/// image, starting at `image_offset`, land in the region starting at
/// `region_offset`.
#[derive(Clone, Copy, Debug, PartialEq, Eq, Structural)]
pub struct WriteCmd {
    /// First byte of the region to write.
    pub region_offset: usize,
    /// First byte of the image to take.
    pub image_offset: usize,
    /// Number of bytes to write.
    pub amount: usize,
}

/// First in-region byte a region starting at logical position `written`
/// writes, for an image placed at `offset`.
pub open spec fn spec_region_offset(offset: int, written: int) -> int {
    if written < offset {
        offset - written
    } else {
        0
    }
}

/// First image byte a region starting at logical position `written` takes,
/// for an image placed at `offset`.
pub open spec fn spec_image_offset(offset: int, written: int) -> int {
    if written > offset {
        written - offset
    } else {
        0
    }
}

/// Number of bytes a region of `region_size` bytes starting at logical
/// position `written` receives: what is left of the region past its starting
/// byte, capped by what is left of the image.
pub open spec fn spec_write_amount(
    region_size: int,
    image_size: int,
    offset: int,
    written: int,
) -> int {
    let in_region = region_size - spec_region_offset(offset, written);
    let in_image = image_size - spec_image_offset(offset, written);
    if in_region <= in_image {
        in_region
    } else {
        in_image
    }
}

/// Decide how one region participates in the fill.
///
/// `written` is the logical size of all prior regions.  The region
/// participates exactly when its logical byte range reaches past `offset`;
/// the scan must stop before calling this once the image end is passed.
pub fn fill_step(region_size: usize, offset: usize, image_size: usize, written: usize) -> (r:
    Result<Option<WriteCmd>, MemInitError>)
    requires
        written < offset + image_size,
    ensures
        written + region_size > usize::MAX ==> r == Result::<
            Option<WriteCmd>,
            MemInitError,
        >::Err(MemInitError::OffsetCheckOverflow),
        written + region_size <= usize::MAX && written + region_size <= offset ==> r == Result::<
            Option<WriteCmd>,
            MemInitError,
        >::Ok(Option::None),
        written + region_size <= usize::MAX && written + region_size > offset ==> (r matches Ok(
            step,
        ) && step matches Some(cmd) && cmd.region_offset == spec_region_offset(
            offset as int,
            written as int,
        ) && cmd.image_offset == spec_image_offset(offset as int, written as int) && cmd.amount
            == spec_write_amount(
            region_size as int,
            image_size as int,
            offset as int,
            written as int,
        ) && cmd.region_offset + cmd.amount <= region_size && cmd.image_offset + cmd.amount
            <= image_size && offset + cmd.image_offset == written + cmd.region_offset),
{
    match written.checked_add(region_size) {
        Option::None => Result::Err(MemInitError::OffsetCheckOverflow),
        Option::Some(location) => {
            if location > offset {
                let region_offset: usize = if written < offset {
                    offset - written
                } else {
                    0
                };
                let image_offset: usize = if written > offset {
                    written - offset
                } else {
                    0
                };
                let in_region = region_size - region_offset;
                let in_image = image_size - image_offset;
                let amount = if in_region <= in_image {
                    in_region
                } else {
                    in_image
                };
                Result::Ok(Option::Some(WriteCmd { region_offset, image_offset, amount }))
            } else {
                Result::Ok(Option::None)
            }
        },
    }
}

/// The byte contents of a sequence of regions.
pub open spec fn spec_views(bufs: Seq<Vec<u8>>) -> Seq<Seq<u8>> {
    Seq::new(bufs.len(), |i: int| bufs[i]@)
}

/// Logical size of the first `i` regions.
pub open spec fn spec_prefix_len(views: Seq<Seq<u8>>, i: int) -> int
    decreases i,
{
    if i <= 0 {
        0
    } else {
        spec_prefix_len(views, i - 1) + views[i - 1].len()
    }
}

/// The prefix lengths grow with the region index.
pub proof fn lemma_prefix_len_mono(views: Seq<Seq<u8>>, a: int, b: int)
    requires
        0 <= a <= b,
    ensures
        spec_prefix_len(views, a) <= spec_prefix_len(views, b),
    decreases b,
{
    if a < b {
        lemma_prefix_len_mono(views, a, b - 1);
    }
}

/// Outcome of the fill scan from region `i` onward, with `written` logical
/// bytes already behind it: it succeeds once the running total reaches
/// `limit`, fails when the regions end first, and fails when accounting for
/// a region would overflow the running total.
pub open spec fn spec_fill_scan(views: Seq<Seq<u8>>, limit: int, i: int, written: int) -> Result<
    (),
    MemInitError,
>
    decreases views.len() - i,
{
    if written >= limit {
        Result::Ok(())
    } else if i >= views.len() {
        Result::Err(MemInitError::ImageWriteIncomplete)
    } else if written + views[i].len() > usize::MAX {
        Result::Err(MemInitError::OffsetCheckOverflow)
    } else {
        spec_fill_scan(views, limit, i + 1, written + views[i].len())
    }
}

/// Outcome of filling a region set with an image of `image_len` bytes placed
/// at `offset`.
pub open spec fn spec_fill_result(views: Seq<Seq<u8>>, offset: int, image_len: int) -> Result<
    (),
    MemInitError,
> {
    if offset + image_len > usize::MAX {
        Result::Err(MemInitError::ImagePlacementOverflow)
    } else {
        spec_fill_scan(views, offset + image_len, 0, 0)
    }
}

/// Byte `k` of region `r` after the fill: the matching image byte when the
/// byte's logical position falls inside the image range, the untouched old
/// byte otherwise.
pub open spec fn spec_filled_byte(
    old_views: Seq<Seq<u8>>,
    image: Seq<u8>,
    offset: int,
    r: int,
    k: int,
) -> u8 {
    let pos = spec_prefix_len(old_views, r) + k;
    if offset <= pos < offset + image.len() {
        image[pos - offset]
    } else {
        old_views[r][k]
    }
}

/// Fill a sequence of byte regions with `image` placed at logical position
/// `offset`: region sizes are never changed, regions that intersect the
/// image range receive exactly the matching image bytes, and every other
/// byte keeps its old value.
pub fn fill_regions(buffers: &mut Vec<Vec<u8>>, offset: usize, image: &Vec<u8>) -> (r: Result<
    (),
    MemInitError,
>)
    ensures
        r == spec_fill_result(spec_views(old(buffers)@), offset as int, image@.len() as int),
        final(buffers)@.len() == old(buffers)@.len(),
        forall|i: int|
            0 <= i < old(buffers)@.len() ==> #[trigger] final(buffers)@[i]@.len()
                == old(buffers)@[i]@.len(),
        r is Ok ==> forall|i: int, k: int|
            0 <= i < old(buffers)@.len() && 0 <= k < old(buffers)@[i]@.len()
                ==> #[trigger] final(buffers)@[i]@[k] == spec_filled_byte(
                spec_views(old(buffers)@),
                image@,
                offset as int,
                i,
                k,
            ),
{
    let ghost views0 = spec_views(old(buffers)@);
    let image_size = image.len();
    let limit = match offset.checked_add(image_size) {
        Option::None => {
            return Result::Err(MemInitError::ImagePlacementOverflow);
        },
        Option::Some(l) => l,
    };
    let n = buffers.len();
    let mut written: usize = 0;
    let mut idx: usize = 0;
    while idx < n && written < limit
        invariant
            views0 == spec_views(old(buffers)@),
            idx <= n,
            n == views0.len(),
            n == old(buffers)@.len(),
            buffers@.len() == n,
            image_size == image@.len(),
            offset + image_size == limit,
            written == spec_prefix_len(views0, idx as int),
            forall|i: int| 0 <= i < n ==> #[trigger] buffers@[i]@.len() == views0[i].len(),
            spec_fill_scan(views0, limit as int, 0, 0) == spec_fill_scan(
                views0,
                limit as int,
                idx as int,
                written as int,
            ),
            forall|i: int, k: int|
                0 <= i < n && 0 <= k < views0[i].len() ==> #[trigger] buffers@[i]@[k] == (if i
                    < idx {
                    spec_filled_byte(views0, image@, offset as int, i, k)
                } else {
                    views0[i][k]
                }),
        decreases n - idx,
    {
        let region_size = buffers[idx].len();
        match fill_step(region_size, offset, image_size, written) {
            Result::Err(e) => {
                return Result::Err(e);
            },
            Result::Ok(Option::None) => {
                proof {
                    assert forall|k: int| 0 <= k < views0[idx as int].len() implies views0[idx as int][k]
                        == spec_filled_byte(views0, image@, offset as int, idx as int, k) by {
                        assert(spec_prefix_len(views0, idx as int) + k < offset);
                    }
                }
                written = written + region_size;
                idx = idx + 1;
            },
            Result::Ok(Option::Some(cmd)) => {
                let ghost pre = buffers@;
                let region = &mut buffers[idx];
                let ghost region0 = region@;
                let mut j: usize = 0;
                while j < cmd.amount
                    invariant
                        j <= cmd.amount,
                        region@.len() == region0.len(),
                        region0.len() == region_size,
                        image_size == image@.len(),
                        cmd.region_offset + cmd.amount <= region_size,
                        cmd.image_offset + cmd.amount <= image_size,
                        forall|k: int|
                            0 <= k < region0.len() ==> #[trigger] region@[k] == (if cmd.region_offset
                                <= k < cmd.region_offset + j {
                                image@[cmd.image_offset + (k - cmd.region_offset)]
                            } else {
                                region0[k]
                            }),
                    decreases cmd.amount - j,
                {
                    let b = image[cmd.image_offset + j];
                    region.set(cmd.region_offset + j, b);
                    j = j + 1;
                }
                proof {
                    assert(buffers@ =~= pre.update(idx as int, buffers@[idx as int]));
                    assert forall|k: int| 0 <= k < views0[idx as int].len() implies buffers@[idx as int]@[k]
                        == spec_filled_byte(views0, image@, offset as int, idx as int, k) by {
                        let pos = spec_prefix_len(views0, idx as int) + k;
                        if cmd.region_offset <= k < cmd.region_offset + cmd.amount {
                            assert(offset <= pos < offset + image@.len());
                            assert(cmd.image_offset + (k - cmd.region_offset) == pos - offset);
                        } else {
                            assert(!(offset <= pos < offset + image@.len()));
                        }
                    }
                }
                written = written + region_size;
                idx = idx + 1;
            },
        }
    }
    if written < limit {
        return Result::Err(MemInitError::ImageWriteIncomplete);
    }
    proof {
        assert forall|i: int, k: int|
            0 <= i < n && 0 <= k < views0[i].len() && i >= idx implies views0[i][k]
            == spec_filled_byte(views0, image@, offset as int, i, k) by {
            lemma_prefix_len_mono(views0, idx as int, i);
            assert(spec_prefix_len(views0, i) + k >= limit);
        }
    }
    Result::Ok(())
}

/// One write of a fill plan: `cmd` applied to the region at `region_index`.
#[derive(Clone, Copy, Debug, PartialEq, Eq, Structural)]
pub struct FillStep {
    /// The region the write goes to.
    pub region_index: usize,
    /// The bounded write itself.
    pub cmd: WriteCmd,
}

/// Logical size of the first `i` regions of a sequence of region sizes.
pub open spec fn spec_size_prefix(sizes: Seq<u64>, i: int) -> int
    decreases i,
{
    if i <= 0 {
        0
    } else {
        spec_size_prefix(sizes, i - 1) + sizes[i - 1]
    }
}

/// Outcome of the fill scan over declared region sizes, from region `i`
/// onward with `written` logical bytes behind it; the same scan as
/// [`spec_fill_scan`], for regions whose bytes live outside the program.
pub open spec fn spec_size_fill_scan(sizes: Seq<u64>, limit: int, i: int, written: int) -> Result<
    (),
    MemInitError,
>
    decreases sizes.len() - i,
{
    if written >= limit {
        Result::Ok(())
    } else if i >= sizes.len() {
        Result::Err(MemInitError::ImageWriteIncomplete)
    } else if written + sizes[i] > usize::MAX {
        Result::Err(MemInitError::OffsetCheckOverflow)
    } else {
        spec_size_fill_scan(sizes, limit, i + 1, written + sizes[i])
    }
}

/// Outcome of planning a fill of regions of the declared sizes with an image
/// of `image_len` bytes placed at `offset`.
pub open spec fn spec_size_fill_result(sizes: Seq<u64>, offset: int, image_len: int) -> Result<
    (),
    MemInitError,
> {
    if offset + image_len > usize::MAX {
        Result::Err(MemInitError::ImagePlacementOverflow)
    } else {
        spec_size_fill_scan(sizes, offset + image_len, 0, 0)
    }
}

/// A fill step stays inside its region and inside the image, and writes at
/// the region position whose logical address matches its image position.
pub open spec fn spec_step_wf(step: FillStep, sizes: Seq<u64>, offset: int, image_size: int) -> bool {
    &&& step.region_index < sizes.len()
    &&& step.cmd.region_offset + step.cmd.amount <= sizes[step.region_index as int]
    &&& step.cmd.image_offset + step.cmd.amount <= image_size
    &&& spec_size_prefix(sizes, step.region_index as int) + step.cmd.region_offset == offset
        + step.cmd.image_offset
}

/// A fill plan is well formed when every step is, the steps walk the regions
/// in strictly increasing order, and together they take the image bytes
/// contiguously from its start.
pub open spec fn spec_plan_wf(
    steps: Seq<FillStep>,
    sizes: Seq<u64>,
    offset: int,
    image_size: int,
) -> bool {
    &&& forall|s: int|
        0 <= s < steps.len() ==> spec_step_wf(#[trigger] steps[s], sizes, offset, image_size)
    &&& forall|s: int|
        0 < s < steps.len() ==> (#[trigger] steps[s]).region_index > steps[s - 1].region_index
    &&& steps.len() > 0 ==> steps[0].cmd.image_offset == 0
    &&& forall|s: int|
        0 < s < steps.len() ==> (#[trigger] steps[s]).cmd.image_offset == steps[s
            - 1].cmd.image_offset + steps[s - 1].cmd.amount
}

/// The image bytes a plan has covered: the end of its last write.
pub open spec fn spec_plan_end(steps: Seq<FillStep>) -> int {
    if steps.len() == 0 {
        0
    } else {
        steps.last().cmd.image_offset + steps.last().cmd.amount
    }
}

/// The image bytes covered once the scan has passed `written` logical bytes.
pub open spec fn spec_covered(offset: int, image_size: int, written: int) -> int {
    let past = if written > offset {
        written - offset
    } else {
        0
    };
    if past <= image_size {
        past
    } else {
        image_size
    }
}

/// Plan the fill of regions of the declared sizes with an image of
/// `image_size` bytes placed at `offset`: on success the steps, applied in
/// order, write every image byte exactly once at its logical position, and
/// the scan's own failures are reported exactly as the fill itself would.
pub fn plan_fill(region_sizes: &Vec<u64>, offset: usize, image_size: usize) -> (r: Result<
    Vec<FillStep>,
    MemInitError,
>)
    requires
        forall|i: int| 0 <= i < region_sizes@.len() ==> #[trigger] region_sizes@[i] <= usize::MAX,
    ensures
        spec_size_fill_result(region_sizes@, offset as int, image_size as int) == (match r {
            Result::Ok(_) => Result::<(), MemInitError>::Ok(()),
            Result::Err(e) => Result::<(), MemInitError>::Err(e),
        }),
        r matches Ok(steps) ==> spec_plan_wf(
            steps@,
            region_sizes@,
            offset as int,
            image_size as int,
        ) && spec_plan_end(steps@) == image_size,
{
    let limit = match offset.checked_add(image_size) {
        Option::None => {
            return Result::Err(MemInitError::ImagePlacementOverflow);
        },
        Option::Some(l) => l,
    };
    let n = region_sizes.len();
    let mut steps: Vec<FillStep> = Vec::new();
    let mut written: usize = 0;
    let mut idx: usize = 0;
    while idx < n && written < limit
        invariant
            idx <= n,
            n == region_sizes@.len(),
            forall|i: int|
                0 <= i < region_sizes@.len() ==> #[trigger] region_sizes@[i] <= usize::MAX,
            offset + image_size == limit,
            written == spec_size_prefix(region_sizes@, idx as int),
            spec_size_fill_scan(region_sizes@, limit as int, 0, 0) == spec_size_fill_scan(
                region_sizes@,
                limit as int,
                idx as int,
                written as int,
            ),
            spec_plan_wf(steps@, region_sizes@, offset as int, image_size as int),
            spec_plan_end(steps@) == spec_covered(offset as int, image_size as int, written as int),
            forall|s: int| 0 <= s < steps@.len() ==> (#[trigger] steps@[s]).region_index < idx,
        decreases n - idx,
    {
        let region_size = region_sizes[idx] as usize;
        match fill_step(region_size, offset, image_size, written) {
            Result::Err(e) => {
                return Result::Err(e);
            },
            Result::Ok(Option::None) => {},
            Result::Ok(Option::Some(cmd)) => {
                if cmd.amount > 0 {
                    let ghost prev = steps@;
                    let step = FillStep { region_index: idx, cmd };
                    steps.push(step);
                    proof {
                        assert(steps@ =~= prev.push(step));
                        assert forall|s: int| 0 <= s < steps@.len() implies spec_step_wf(
                            #[trigger] steps@[s],
                            region_sizes@,
                            offset as int,
                            image_size as int,
                        ) by {
                            if s < prev.len() {
                                assert(steps@[s] == prev[s]);
                            } else {
                                assert(steps@[s] == step);
                            }
                        }
                        assert forall|s: int| 0 < s < steps@.len() implies (
                        #[trigger] steps@[s]).region_index > steps@[s - 1].region_index by {
                            if s < prev.len() {
                                assert(steps@[s] == prev[s] && steps@[s - 1] == prev[s - 1]);
                            } else {
                                assert(steps@[s] == step);
                                if s > 0 {
                                    assert(steps@[s - 1] == prev[s - 1]);
                                }
                            }
                        }
                        assert forall|s: int| 0 < s < steps@.len() implies (
                        #[trigger] steps@[s]).cmd.image_offset == steps@[s - 1].cmd.image_offset
                            + steps@[s - 1].cmd.amount by {
                            if s < prev.len() {
                                assert(steps@[s] == prev[s] && steps@[s - 1] == prev[s - 1]);
                            } else {
                                assert(steps@[s] == step);
                                if s > 0 {
                                    assert(steps@[s - 1] == prev[s - 1]);
                                    assert(prev.last() == prev[s - 1]);
                                }
                            }
                        }
                    }
                }
            },
        }
        written = written + region_size;
        idx = idx + 1;
    }
    if written < limit {
        return Result::Err(MemInitError::ImageWriteIncomplete);
    }
    Result::Ok(steps)
}

/// Total logical size of a region sequence.
pub open spec fn spec_total_len(views: Seq<Seq<u8>>) -> int {
    spec_prefix_len(views, views.len() as int)
}

/// The byte at logical position `pos` of the concatenated regions.
pub open spec fn spec_logical_byte(views: Seq<Seq<u8>>, pos: int) -> u8
    decreases views.len(),
{
    if views.len() == 0 {
        0
    } else if pos < views[0].len() {
        views[0][pos]
    } else {
        spec_logical_byte(views.skip(1), pos - views[0].len())
    }
}

/// A prefix length decomposes over the first region.
pub proof fn lemma_prefix_len_skip(views: Seq<Seq<u8>>, i: int)
    requires
        views.len() > 0,
        1 <= i <= views.len(),
    ensures
        spec_prefix_len(views, i) == views[0].len() + spec_prefix_len(views.skip(1), i - 1),
    decreases i,
{
    if i == 1 {
        assert(spec_prefix_len(views, 1) == spec_prefix_len(views, 0) + views[0].len());
        assert(spec_prefix_len(views.skip(1), 0) == 0);
    } else {
        lemma_prefix_len_skip(views, i - 1);
        assert(views.skip(1)[i - 2] == views[i - 1]);
        assert(spec_prefix_len(views, i) == spec_prefix_len(views, i - 1) + views[i - 1].len());
        assert(spec_prefix_len(views.skip(1), i - 1) == spec_prefix_len(views.skip(1), i - 2)
            + views.skip(1)[i - 2].len());
    }
}

/// The byte at the logical position of byte `k` of region `r` is that byte.
pub proof fn lemma_logical_byte_at(views: Seq<Seq<u8>>, r: int, k: int)
    requires
        0 <= r < views.len(),
        0 <= k < views[r].len(),
    ensures
        spec_logical_byte(views, spec_prefix_len(views, r) + k) == views[r][k],
    decreases r,
{
    lemma_prefix_len_mono(views, 0, r);
    if r == 0 {
    } else {
        assert forall|j: int| 0 <= j < views.skip(1).len() implies #[trigger] views.skip(1)[j]
            == views[j + 1] by {}
        lemma_logical_byte_at(views.skip(1), r - 1, k);
        lemma_prefix_len_skip(views, r);
        lemma_prefix_len_mono(views.skip(1), 0, r - 1);
    }
}

/// Every logical position below the total size falls in exactly one region;
/// the returned index names it.
pub proof fn lemma_position_region(views: Seq<Seq<u8>>, pos: int) -> (r: int)
    requires
        0 <= pos < spec_total_len(views),
    ensures
        0 <= r < views.len(),
        spec_prefix_len(views, r) <= pos < spec_prefix_len(views, r) + views[r].len(),
    decreases views.len(),
{
    if views.len() == 0 {
        assert(false);
        0
    } else if pos < views[0].len() {
        0
    } else {
        lemma_prefix_len_skip(views, views.len() as int);
        let inner = lemma_position_region(views.skip(1), pos - views[0].len());
        lemma_prefix_len_skip(views, inner + 1);
        assert(views.skip(1)[inner] == views[inner + 1]);
        inner + 1
    }
}

/// A fill scan that succeeds has regions whose total logical size reaches
/// the scan limit.
pub proof fn lemma_fill_scan_ok_covers(views: Seq<Seq<u8>>, limit: int, i: int, written: int)
    requires
        spec_fill_scan(views, limit, i, written) is Ok,
        0 <= i <= views.len(),
        written == spec_prefix_len(views, i),
    ensures
        spec_total_len(views) >= limit,
    decreases views.len() - i,
{
    if written >= limit {
        lemma_prefix_len_mono(views, i, views.len() as int);
    } else {
        lemma_fill_scan_ok_covers(views, limit, i + 1, written + views[i].len());
    }
}

/// Region sequences with equal region sizes have equal prefix lengths.
pub proof fn lemma_prefix_len_congruent(a: Seq<Seq<u8>>, b: Seq<Seq<u8>>, i: int)
    requires
        a.len() == b.len(),
        i <= a.len(),
        forall|j: int| 0 <= j < a.len() ==> #[trigger] a[j].len() == b[j].len(),
    ensures
        spec_prefix_len(a, i) == spec_prefix_len(b, i),
    decreases i,
{
    if i > 0 {
        lemma_prefix_len_congruent(a, b, i - 1);
    }
}

/// Round trip of image placement: after a successful fill of a region set
/// with an image of length `S` placed at offset `O`, reading back the
/// logical byte range `[O, O + S)` reproduces the image exactly, and every
/// logical byte outside that range is untouched.
pub proof fn lemma_fill_round_trip(
    old_views: Seq<Seq<u8>>,
    new_views: Seq<Seq<u8>>,
    image: Seq<u8>,
    offset: int,
)
    requires
        0 <= offset,
        spec_fill_result(old_views, offset, image.len() as int) is Ok,
        new_views.len() == old_views.len(),
        forall|i: int|
            0 <= i < old_views.len() ==> #[trigger] new_views[i].len() == old_views[i].len(),
        forall|i: int, k: int|
            0 <= i < old_views.len() && 0 <= k < old_views[i].len() ==> #[trigger] new_views[i][k]
                == spec_filled_byte(old_views, image, offset, i, k),
    ensures
        spec_total_len(new_views) == spec_total_len(old_views),
        spec_total_len(old_views) >= offset + image.len(),
        forall|p: int|
            offset <= p < offset + image.len() ==> #[trigger] spec_logical_byte(new_views, p)
                == image[p - offset],
        forall|p: int|
            0 <= p < spec_total_len(old_views) && !(offset <= p < offset + image.len())
                ==> #[trigger] spec_logical_byte(new_views, p) == spec_logical_byte(old_views, p),
{
    lemma_prefix_len_congruent(old_views, new_views, old_views.len() as int);
    lemma_fill_scan_ok_covers(old_views, offset + image.len(), 0, 0);
    assert forall|p: int| offset <= p < offset + image.len() implies #[trigger] spec_logical_byte(
        new_views,
        p,
    ) == image[p - offset] by {
        let r = lemma_position_region(old_views, p);
        lemma_prefix_len_congruent(old_views, new_views, r);
        let k = p - spec_prefix_len(old_views, r);
        lemma_logical_byte_at(new_views, r, k);
        assert(new_views[r][k] == spec_filled_byte(old_views, image, offset, r, k));
    }
    assert forall|p: int|
        0 <= p < spec_total_len(old_views) && !(offset <= p < offset + image.len())
        implies #[trigger] spec_logical_byte(new_views, p) == spec_logical_byte(old_views, p) by {
        let r = lemma_position_region(old_views, p);
        lemma_prefix_len_congruent(old_views, new_views, r);
        let k = p - spec_prefix_len(old_views, r);
        lemma_logical_byte_at(new_views, r, k);
        lemma_logical_byte_at(old_views, r, k);
        assert(new_views[r][k] == spec_filled_byte(old_views, image, offset, r, k));
    }
}

} // verus!
