//! Two-stage split-K: stage 1 writes one partial plane per split to scratch,
//! stage 2 sums the planes into C.
//!
//! It costs one more dispatch and the scratch traffic, and wins where K is
//! deep and the output small. Results do not depend on timing.

use crate::arith::{ceil_div, div_ceil, lemma_ceil_div, lemma_mul_u32};
use crate::context::VulkanContext;
use crate::dtype::Scalar;
use crate::error::{outcome, refused, Error, ErrorView, Refusal};
use crate::matmul::resolution::{checked_product, checked_product_of, ResolvedMatmul};
use crate::pipeline::abi::MatmulPushConstants;
use crate::tensor::checked_next_multiple_of;
use vstd::prelude::*;

verus! {

/// Whether stage 1 takes the 128x128 tile: where both extents fill it.
pub open spec fn stage1_large(m: u32, n: u32) -> bool {
    m >= 128 && n >= 128
}

/// The square tile of stage 1.
pub open spec fn stage1_tile(m: u32, n: u32) -> u32 {
    if stage1_large(m, n) {
        128
    } else {
        64
    }
}

/// The name and the tile of the stage-1 kernel for an output.
pub fn stage1_dispatch_info(m: u32, n: u32) -> (r: (&'static str, [u32; 3]))
    ensures
        r.0 == (if stage1_large(m, n) {
            "split_k2_m128n128"
        } else {
            "split_k2_m64n64"
        }),
        r.1@ == seq![stage1_tile(m, n), stage1_tile(m, n), 32u32],
{
    if m >= 128 && n >= 128 {
        let tile: [u32; 3] = [128, 128, 32];
        assert(tile@ =~= seq![128u32, 128u32, 32u32]);
        ("split_k2_m128n128", tile)
    } else {
        let tile: [u32; 3] = [64, 64, 32];
        assert(tile@ =~= seq![64u32, 64u32, 32u32]);
        ("split_k2_m64n64", tile)
    }
}

/// Output tiles of stage 1.
pub open spec fn stage1_tiles(batch: u32, m: u32, n: u32) -> int {
    let tile = stage1_tile(m, n) as int;
    batch * ceil_div(m as int, tile) * ceil_div(n as int, tile)
}

/// The least K for which splitting an output of large tiles pays; none for
/// more than sixteen of them.
pub open spec fn least_k(tiles: int) -> Option<int> {
    if tiles == 1 {
        Some(1024)
    } else if 2 <= tiles <= 4 {
        Some(2048)
    } else if 5 <= tiles <= 16 {
        Some(4096)
    } else {
        None
    }
}

/// The workgroups that stage 1 should make, and the least K per split; none
/// where splitting does not pay.
pub open spec fn split_target(batch: u32, m: u32, n: u32, k: u32) -> Option<(int, int)> {
    let tiles = stage1_tiles(batch, m, n);
    if batch == 0 || m <= 1 || n <= 1 || k < 1024 {
        None
    } else if stage1_large(m, n) {
        if least_k(tiles) is None || k < least_k(tiles)->0 {
            None
        } else {
            Some((if tiles >= 9 && k >= 8192 { 128int } else { 64 }, 128))
        }
    } else if tiles > 4 {
        None
    } else {
        Some((128, 64))
    }
}

/// The most splits of a shape.
pub open spec fn most_splits(batch: u32, m: u32, n: u32, k: u32) -> int {
    let by_k = k as int / (split_target(batch, m, n, k)->0).1;
    if stage1_large(m, n) && stage1_tiles(batch, m, n) == 1 && by_k < 16 {
        16
    } else {
        by_k
    }
}

/// Whether a split count neither overfills the device nor cuts K too short.
pub open spec fn split_suits(batch: u32, m: u32, n: u32, k: u32, splits: int) -> bool {
    &&& split_target(batch, m, n, k) is Some
    &&& splits <= ceil_div((split_target(batch, m, n, k)->0).0, stage1_tiles(batch, m, n))
    &&& splits <= most_splits(batch, m, n, k)
}

/// The split count for a shape that nothing has been measured for: the
/// largest of five that suits it.
pub open spec fn heuristic_split(batch: u32, m: u32, n: u32, k: u32) -> Option<u32> {
    if split_suits(batch, m, n, k, 64) {
        Some(64)
    } else if split_suits(batch, m, n, k, 32) {
        Some(32)
    } else if split_suits(batch, m, n, k, 16) {
        Some(16)
    } else if split_suits(batch, m, n, k, 8) {
        Some(8)
    } else if split_suits(batch, m, n, k, 4) {
        Some(4)
    } else {
        None
    }
}

/// The stage-1 tile count, held at the largest number.
fn saturated_tiles(batch: u32, rows: u32, cols: u32) -> (r: u64)
    ensures
        r == (if batch * rows * cols > u64::MAX { u64::MAX as int } else { batch * rows * cols }),
{
    proof {
        lemma_mul_u32(batch as int, rows as int);
    }
    let per_column: u64 = batch as u64 * rows as u64;
    proof {
        assert(per_column * cols >= 0) by (nonlinear_arith)
            requires
                per_column >= 0,
                cols >= 0,
        ;
    }
    match per_column.checked_mul(cols as u64) {
        Some(t) => t,
        None => u64::MAX,
    }
}

/// The split count for a shape that nothing has been measured for: only
/// deep-K shapes whose output is too small to fill the device are split, and
/// each split keeps enough K to be worth its tile loads.
pub fn heuristic_splits(batch: u32, m: u32, n: u32, k: u32) -> (r: Option<u32>)
    ensures
        r == heuristic_split(batch, m, n, k),
        r matches Some(s) ==> 4 <= s <= 64,
{
    if batch == 0 || m <= 1 || n <= 1 || k < 1024 {
        return None;
    }
    let large: bool = m >= 128 && n >= 128;
    let tile: u32 = if large { 128 } else { 64 };
    let rows: u32 = div_ceil(m, tile);
    let cols: u32 = div_ceil(n, tile);
    let tiles: u64 = saturated_tiles(batch, rows, cols);
    proof {
        assert(batch * rows * cols >= 1) by (nonlinear_arith)
            requires
                batch >= 1,
                rows >= 1,
                cols >= 1,
        ;
    }
    let (target_wgs, min_k): (u64, u32) = if large {
        let least: u32 = if tiles == 1 {
            1024
        } else if tiles <= 4 {
            2048
        } else if tiles <= 16 {
            4096
        } else {
            return None;
        };
        if k < least {
            return None;
        }
        (if tiles >= 9 && k >= 8192 { 128 } else { 64 }, 128)
    } else {
        if tiles > 4 {
            return None;
        }
        (128, 64)
    };
    proof {
        lemma_ceil_div(target_wgs as int, tiles as int);
    }
    let quotient: u64 = target_wgs / tiles;
    let wanted: u64 = if target_wgs % tiles == 0 { quotient } else { quotient + 1 };
    let by_k: u32 = k / min_k;
    let most: u32 = if large && tiles == 1 && by_k < 16 { 16 } else { by_k };
    if 64 <= wanted && 64 <= most {
        Some(64)
    } else if 32 <= wanted && 32 <= most {
        Some(32)
    } else if 16 <= wanted && 16 <= most {
        Some(16)
    } else if 8 <= wanted && 8 <= most {
        Some(8)
    } else if 4 <= wanted && 4 <= most {
        Some(4)
    } else {
        None
    }
}

/// Threads per reduce workgroup.
pub const REDUCE_WG_SIZE: u32 = 256;

/// Output elements per reduce workgroup: four per thread.
pub const REDUCE_WG_ELEMENTS: u32 = 1024;

/// Automatic routing stays below this scratch budget per submission.
/// Explicit split-K calls may ask for more.
pub const AUTO_SCRATCH_CAP_BYTES: u64 = 268_435_456;

/// The split count of an automatic route: a measured outcome stands, also
/// where it is that a data-parallel kernel won.
pub fn resolve_auto_splits(tuned: Option<Option<u32>>, heuristic: Option<u32>) -> (r: Option<u32>)
    ensures
        r == (match tuned {
            Some(measured) => measured,
            None => heuristic,
        }),
{
    match tuned {
        Some(measured) => measured,
        None => heuristic,
    }
}

/// Elements of scratch that a split takes.
pub open spec fn scratch_elements(batch: u32, m: u32, n: u32, splits: u32) -> int {
    batch * m * n * splits
}

/// Whether an automatic split stays within every limit: a usable count, the
/// grids of both stages, 32-bit addressing and the scratch budget.
pub open spec fn auto_fits(
    max_x: u32,
    max_y: u32,
    max_z: u32,
    batch: u32,
    m: u32,
    n: u32,
    k: u32,
    splits: u32,
) -> bool {
    let tile = stage1_tile(m, n) as int;
    &&& batch > 0 && m > 0 && n > 0
    &&& 2 <= splits <= 0xFFFF
    &&& splits <= k
    &&& ceil_div(n as int, tile) <= max_x
    &&& ceil_div(m as int, tile) <= max_y
    &&& batch * splits <= max_z
    &&& ceil_div(batch * m * n, REDUCE_WG_ELEMENTS as int) <= max_x
    &&& scratch_elements(batch, m, n, splits) <= 0x1_0000_0000
    &&& scratch_elements(batch, m, n, splits) * 4 <= AUTO_SCRATCH_CAP_BYTES
}

/// Decides [`auto_fits`] before any scratch is allocated.
pub fn auto_route_fits(
    max_groups: [u32; 3],
    batch: u32,
    m: u32,
    n: u32,
    k: u32,
    splits: u32,
) -> (r: bool)
    ensures
        r == auto_fits(
            max_groups@[0],
            max_groups@[1],
            max_groups@[2],
            batch,
            m,
            n,
            k,
            splits,
        ),
{
    if batch == 0 || m == 0 || n == 0 || splits < 2 || splits > 0xFFFF || splits > k {
        return false;
    }
    let tile: u32 = if m >= 128 && n >= 128 { 128 } else { 64 };
    let rows: u32 = div_ceil(m, tile);
    let cols: u32 = div_ceil(n, tile);
    proof {
        lemma_mul_u32(batch as int, m as int);
        lemma_mul_u32(batch as int, splits as int);
    }
    let bm: u64 = batch as u64 * m as u64;
    let ghost total_value = batch * m * n;
    let ghost elements_value = total_value * splits;
    proof {
        assert(total_value == bm * n);
        assert(total_value >= 0) by (nonlinear_arith)
            requires
                total_value == bm * n,
                bm >= 0,
                n >= 0,
        ;
        assert(elements_value >= total_value) by (nonlinear_arith)
            requires
                elements_value == total_value * splits,
                splits >= 2,
                total_value >= 0,
        ;
    }
    let total: u64 = match bm.checked_mul(n as u64) {
        Some(t) => t,
        None => return false,
    };
    let elements: u64 = match total.checked_mul(splits as u64) {
        Some(t) => t,
        None => return false,
    };
    let bytes: u64 = match elements.checked_mul(4) {
        Some(t) => t,
        None => return false,
    };
    let gz: u32 = match batch.checked_mul(splits) {
        Some(t) => t,
        None => return false,
    };
    if bytes > AUTO_SCRATCH_CAP_BYTES || elements > 0x1_0000_0000 {
        return false;
    }
    assert(total <= elements);
    let reduce: u64 = (total + 1023) / 1024;
    cols <= max_groups[0] && rows <= max_groups[1] && gz <= max_groups[2] && reduce
        <= max_groups[0] as u64
}

/// The end of a region of `bytes` behind `offset`, in steps of sixteen.
pub open spec fn region_end(offset: u64, bytes: u64) -> int {
    offset + (bytes + 15) / 16 * 16
}

/// Reserves an aligned region inside the automatic scratch budget.
pub fn checked_auto_scratch_end(offset: u64, bytes: u64) -> (r: Option<u64>)
    ensures
        r == (if region_end(offset, bytes) <= AUTO_SCRATCH_CAP_BYTES {
            Some(region_end(offset, bytes) as u64)
        } else {
            None
        }),
{
    let size: u64 = match checked_next_multiple_of(bytes, 16) {
        Some(s) => s,
        None => return None,
    };
    let end: u64 = match offset.checked_add(size) {
        Some(e) => e,
        None => return None,
    };
    if end <= AUTO_SCRATCH_CAP_BYTES {
        Some(end)
    } else {
        None
    }
}

/// Whether a split's scratch can be addressed: stage 1 forms its offsets in
/// 32 bits, so there are at most 2^32 elements.
pub open spec fn scratch_result(batch: u32, m: u32, n: u32, k: u32, splits: u32) -> Result<
    (),
    ErrorView,
> {
    if splits > k {
        Err(refused(Refusal::SplitOverK { splits, k }))
    } else {
        match checked_product_of(seq![batch as u64, m as u64, n as u64, splits as u64]) {
            None => Err(refused(Refusal::SplitScratchOverflow)),
            Some(elements) => if elements > 0x1_0000_0000 {
                Err(refused(Refusal::SplitScratchAddressing { elements }))
            } else {
                Ok(())
            },
        }
    }
}

/// Whether a split's scratch can be addressed.
pub fn validate_scratch_geometry(batch: u32, m: u32, n: u32, k: u32, splits: u32) -> (r: Result<
    (),
    Error,
>)
    ensures
        outcome(r) == scratch_result(batch, m, n, k, splits),
{
    if splits > k {
        return Err(Error::new(Refusal::SplitOverK { splits, k }));
    }
    let factors: [u64; 4] = [batch as u64, m as u64, n as u64, splits as u64];
    assert(factors@ =~= seq![batch as u64, m as u64, n as u64, splits as u64]);
    match checked_product(factors.as_slice()) {
        None => Err(Error::new(Refusal::SplitScratchOverflow)),
        Some(elements) => if elements > 0x1_0000_0000 {
            Err(Error::new(Refusal::SplitScratchAddressing { elements }))
        } else {
            Ok(())
        },
    }
}

/// Where the scratch of non-empty extents can be addressed, its size is the
/// plain product, and only then.
pub proof fn lemma_scratch_result(batch: u32, m: u32, n: u32, k: u32, splits: u32)
    requires
        batch > 0,
        m > 0,
        n > 0,
        0 < splits <= k,
    ensures
        scratch_result(batch, m, n, k, splits) is Ok <==> scratch_elements(batch, m, n, splits)
            <= 0x1_0000_0000,
        batch * m * n <= scratch_elements(batch, m, n, splits),
        batch * m * n == m * n * batch,
        m * n <= batch * m * n,
{
    let v = seq![batch as u64, m as u64, n as u64, splits as u64];
    let v3 = seq![batch as u64, m as u64, n as u64];
    let v2 = seq![batch as u64, m as u64];
    let v1 = seq![batch as u64];
    assert(v.drop_last() =~= v3);
    assert(v3.drop_last() =~= v2);
    assert(v2.drop_last() =~= v1);
    assert(v1.drop_last() =~= Seq::<u64>::empty());
    reveal_with_fuel(checked_product_of, 5);
    assert(v1.last() == batch as u64 && v2.last() == m as u64 && v3.last() == n as u64 && v.last()
        == splits as u64);
    assert(checked_product_of(v1) == Some(batch as u64)) by {
        let p = checked_product_of(v1.drop_last())->0;
        assert(checked_product_of(v1.drop_last()) == Some(1u64));
        assert(p * v1.last() == batch) by (nonlinear_arith)
            requires
                p == 1,
                v1.last() == batch as u64,
        ;
    }
    lemma_mul_u32(batch as int, m as int);
    let p2 = batch * m;
    let p3 = p2 * n;
    let p4 = p3 * splits;
    assert(checked_product_of(v2) == Some(p2 as u64));
    assert(checked_product_of(v3) == (if p3 > u64::MAX { None } else { Some(p3 as u64) }));
    assert(p3 >= p2 && p2 >= 1) by (nonlinear_arith)
        requires
            p2 == batch * m,
            p3 == p2 * n,
            batch >= 1,
            m >= 1,
            n >= 1,
    ;
    assert(p4 >= p3) by (nonlinear_arith)
        requires
            p4 == p3 * splits,
            splits >= 1,
            p3 >= 1,
    ;
    assert(batch * m * n == m * n * batch) by (nonlinear_arith);
    assert(m * n <= batch * m * n) by (nonlinear_arith)
        requires
            batch >= 1,
            m >= 1,
            n >= 1,
    ;
}

/// Dispatch geometry and scratch of one split-K execution.
#[derive(Copy, Clone, Debug, PartialEq, Eq, Structural)]
pub struct SplitK2Dispatch {
    pub splits: u32,
    pub gx: u32,
    pub gy: u32,
    pub gz: u32,
    pub mn: u32,
    pub total: u32,
    pub reduce_groups: u32,
    /// Stage-1 partial planes: `batch * splits * mn` elements of four bytes.
    pub scratch_bytes: u64,
    pub use_m128: bool,
}

/// The plan of a split of a resolved matmul, or the first limit it breaks.
pub open spec fn split_plan(ctx: VulkanContext, dims: ResolvedMatmul, splits: u32) -> Result<
    SplitK2Dispatch,
    ErrorView,
> {
    let tile = stage1_tile(dims.m, dims.n) as int;
    let gx = ceil_div(dims.n as int, tile) as u32;
    let gy = ceil_div(dims.m as int, tile) as u32;
    let gz = dims.batch * splits;
    let total = dims.m * dims.n * dims.batch;
    let reduce_groups = ceil_div(total, REDUCE_WG_ELEMENTS as int) as u32;
    if splits < 2 || splits > 0xFFFF {
        Err(refused(Refusal::SplitRange { splits }))
    } else if let Err(e) = scratch_result(dims.batch, dims.m, dims.n, dims.k, splits) {
        Err(e)
    } else if gz > u32::MAX {
        Err(refused(Refusal::SplitGridOverflow))
    } else if !ctx.grid_fits(gx as int, gy as int, gz as int) {
        Err(
            refused(
                Refusal::SplitGrid {
                    gx,
                    gy,
                    gz: gz as u32,
                    max_x: ctx.max_groups_x,
                    max_y: ctx.max_groups_y,
                    max_z: ctx.max_groups_z,
                },
            ),
        )
    } else if total > u32::MAX {
        Err(refused(Refusal::SplitOutputAddressing { total: total as u64 }))
    } else if reduce_groups > ctx.max_groups_x {
        Err(refused(Refusal::SplitReduceGrid { groups: reduce_groups }))
    } else {
        Ok(
            SplitK2Dispatch {
                splits,
                gx,
                gy,
                gz: gz as u32,
                mn: (dims.m * dims.n) as u32,
                total: total as u32,
                reduce_groups,
                scratch_bytes: (total * splits * 4) as u64,
                use_m128: stage1_large(dims.m, dims.n),
            },
        )
    }
}

impl SplitK2Dispatch {
    /// Plans a split of a resolved matmul.
    pub fn plan(ctx: &VulkanContext, dims: &ResolvedMatmul, splits: u32) -> (r: Result<Self, Error>)
        requires
            dims.batch > 0,
            dims.m > 0,
            dims.n > 0,
        ensures
            outcome(r) == split_plan(*ctx, *dims, splits),
    {
        if splits < 2 || splits > 0xFFFF {
            return Err(Error::new(Refusal::SplitRange { splits }));
        }
        if let Err(e) = validate_scratch_geometry(dims.batch, dims.m, dims.n, dims.k, splits) {
            return Err(e);
        }
        proof {
            lemma_scratch_result(dims.batch, dims.m, dims.n, dims.k, splits);
            lemma_mul_u32(dims.m as int, dims.n as int);
            lemma_mul_u32(dims.batch as int, splits as int);
        }
        let use_m128: bool = dims.m >= 128 && dims.n >= 128;
        let tile: u32 = if use_m128 { 128 } else { 64 };
        let gx: u32 = div_ceil(dims.n, tile);
        let gy: u32 = div_ceil(dims.m, tile);
        let gz: u32 = match dims.batch.checked_mul(splits) {
            Some(g) => g,
            None => return Err(Error::new(Refusal::SplitGridOverflow)),
        };
        if gx > ctx.max_groups_x || gy > ctx.max_groups_y || gz > ctx.max_groups_z {
            return Err(
                Error::new(
                    Refusal::SplitGrid {
                        gx,
                        gy,
                        gz,
                        max_x: ctx.max_groups_x,
                        max_y: ctx.max_groups_y,
                        max_z: ctx.max_groups_z,
                    },
                ),
            );
        }
        let mn: u64 = dims.m as u64 * dims.n as u64;
        let total: u64 = mn * dims.batch as u64;
        if total > u32::MAX as u64 {
            return Err(Error::new(Refusal::SplitOutputAddressing { total }));
        }
        assert(total * splits == scratch_elements(dims.batch, dims.m, dims.n, splits));
        let elements: u64 = total * splits as u64;
        let scratch_bytes: u64 = elements * 4;
        let reduce_groups: u32 = div_ceil(total as u32, REDUCE_WG_ELEMENTS);
        if reduce_groups > ctx.max_groups_x {
            return Err(Error::new(Refusal::SplitReduceGrid { groups: reduce_groups }));
        }
        Ok(
            SplitK2Dispatch {
                splits,
                gx,
                gy,
                gz,
                mn: mn as u32,
                total: total as u32,
                reduce_groups,
                scratch_bytes,
                use_m128,
            },
        )
    }
}

/// Push constants of the reduce stage.
#[derive(Copy, Clone, Debug, PartialEq, Eq, Structural)]
pub struct SplitK2ReducePushConstants {
    pub total: u32,
    pub mn: u32,
    pub num_splits: u32,
    pub pad: u32,
    pub scratch_ptr: u64,
    pub c_ptr: u64,
}

/// The two dispatches of a split-K execution, a full barrier between them.
#[derive(Copy, Clone, Debug, PartialEq, Eq, Structural)]
pub struct SplitK2Commands {
    pub use_m128: bool,
    pub stage1: MatmulPushConstants,
    pub stage1_x: u32,
    pub stage1_y: u32,
    pub stage1_z: u32,
    pub reduce: SplitK2ReducePushConstants,
    pub reduce_groups: u32,
}

/// The dispatches of a planned split: stage 1 writes to scratch in place of
/// C, the reducer reads scratch and writes C.
pub open spec fn split_commands(
    alpha: Scalar,
    dims: ResolvedMatmul,
    plan: SplitK2Dispatch,
    a_ptr: u64,
    b_ptr: u64,
    c_ptr: u64,
    scratch: u64,
) -> SplitK2Commands {
    SplitK2Commands {
        use_m128: plan.use_m128,
        stage1: dims.push_of((plan.splits * 0x1_0000) as u32, alpha, a_ptr, b_ptr, scratch),
        stage1_x: plan.gx,
        stage1_y: plan.gy,
        stage1_z: plan.gz,
        reduce: SplitK2ReducePushConstants {
            total: plan.total,
            mn: plan.mn,
            num_splits: plan.splits,
            pad: 0,
            scratch_ptr: scratch,
            c_ptr,
        },
        reduce_groups: plan.reduce_groups,
    }
}

/// The dispatches of a planned split.
pub fn record_split_k2_commands(
    alpha: Scalar,
    dims: &ResolvedMatmul,
    plan: &SplitK2Dispatch,
    a_ptr: u64,
    b_ptr: u64,
    c_ptr: u64,
    scratch: u64,
) -> (r: SplitK2Commands)
    requires
        1 <= plan.splits <= 0xFFFF,
    ensures
        r == split_commands(alpha, *dims, *plan, a_ptr, b_ptr, c_ptr, scratch),
{
    SplitK2Commands {
        use_m128: plan.use_m128,
        stage1: dims.split_k_push_constants(alpha, a_ptr, b_ptr, scratch, plan.splits),
        stage1_x: plan.gx,
        stage1_y: plan.gy,
        stage1_z: plan.gz,
        reduce: SplitK2ReducePushConstants {
            total: plan.total,
            mn: plan.mn,
            num_splits: plan.splits,
            pad: 0,
            scratch_ptr: scratch,
            c_ptr,
        },
        reduce_groups: plan.reduce_groups,
    }
}

/// An automatic route that fits can be planned, its scratch stays within the
/// budget, and the reducer's elements are those of the whole output.
pub proof fn fitting_route_plans(ctx: VulkanContext, dims: ResolvedMatmul, splits: u32)
    requires
        auto_fits(
            ctx.max_groups_x,
            ctx.max_groups_y,
            ctx.max_groups_z,
            dims.batch,
            dims.m,
            dims.n,
            dims.k,
            splits,
        ),
    ensures
        split_plan(ctx, dims, splits) is Ok,
        ({
            let plan = split_plan(ctx, dims, splits)->Ok_0;
            &&& plan.scratch_bytes <= AUTO_SCRATCH_CAP_BYTES
            &&& plan.scratch_bytes == 4 * scratch_elements(dims.batch, dims.m, dims.n, splits)
            &&& plan.total == dims.batch * plan.mn
            &&& plan.splits == splits
        }),
{
    lemma_scratch_result(dims.batch, dims.m, dims.n, dims.k, splits);
    lemma_mul_u32(dims.m as int, dims.n as int);
    lemma_ceil_div(dims.n as int, stage1_tile(dims.m, dims.n) as int);
    lemma_ceil_div(dims.m as int, stage1_tile(dims.m, dims.n) as int);
    let total = dims.m * dims.n * dims.batch;
    lemma_ceil_div(total, 1024);
    assert(total * splits == scratch_elements(dims.batch, dims.m, dims.n, splits));
    assert(total * 2 <= total * splits) by (nonlinear_arith)
        requires
            splits >= 2,
            total >= 0,
    ;
    assert(dims.batch * (dims.m * dims.n) == total) by (nonlinear_arith)
        requires
            total == dims.m * dims.n * dims.batch,
    ;
}

} // verus!
