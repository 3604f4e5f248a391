//! The persistent-threads kernel: a fixed number of resident workgroups takes
//! output tiles off a global counter.
//!
//! It stays apart from the regular kernels: its push constants differ.

use crate::arith::{ceil_div, div_ceil, lemma_ceil_div, lemma_mul_u32};
use crate::context::VulkanContext;
use crate::dtype::Scalar;
use crate::error::{outcome, refused, Error, ErrorView, Refusal, Role};
use crate::matmul::api::MatmulCall;
use crate::matmul::resolution::{resolve_call, resolved_is_addressable, ResolvedMatmul};
use vstd::prelude::*;

verus! {

/// Output-tile extents and K strip of the kernel.
pub const TILE_M: u32 = 128;

pub const TILE_N: u32 = 64;

pub const TILE_K: u32 = 64;

/// Resident workgroups per multiprocessor.
pub const WG_PER_SM: u32 = 2;

/// Multiprocessors assumed where the device does not say.
pub const FALLBACK_SM_COUNT: u32 = 46;

/// Specialized pipelines of the kernel.
pub const VARIANT_COUNT: usize = 16;

/// Bytes of the push constants.
pub const PUSH_BYTES: u32 = 80;

/// Push constants of the kernel.
#[derive(Copy, Clone, Debug, PartialEq, Eq, Structural)]
pub struct PersistentPushConstants {
    pub m: u32,
    pub n: u32,
    pub k: u32,
    pub batch_stride_a: u32,
    pub batch_stride_b: u32,
    pub batch_stride_c: u32,
    pub flags: u32,
    pub alpha: Scalar,
    pub a_ptr: u64,
    pub b_ptr: u64,
    pub c_ptr: u64,
    pub counter_ptr: u64,
    pub grid_x: u32,
    pub grid_y: u32,
    pub num_tiles: u32,
    pub pad: u32,
}

/// A planned dispatch.
#[derive(Copy, Clone, Debug, PartialEq, Eq, Structural)]
pub struct PreparedDispatch {
    pub push: PersistentPushConstants,
    /// Which of the [`VARIANT_COUNT`] pipelines runs it.
    pub variant: usize,
    pub group_count_x: u32,
    pub total_flops: u64,
}

/// The smaller of two numbers.
pub open spec fn least(a: int, b: int) -> int {
    if a < b { a } else { b }
}

/// The resident workgroups of a device.
pub open spec fn resident_groups(sm_count: u32) -> int {
    least(WG_PER_SM * sm_count, u32::MAX as int)
}

/// The output tiles of a batch.
pub open spec fn tile_count(dims: ResolvedMatmul) -> int {
    ceil_div(dims.n as int, TILE_N as int) * ceil_div(dims.m as int, TILE_M as int) * dims.batch
}

/// The dispatch of a call, or the first check that it fails.
pub open spec fn dispatch_of(
    ctx: VulkanContext,
    sm_count: u32,
    counter: u64,
    call: MatmulCall,
) -> Result<PreparedDispatch, ErrorView> {
    if call.a@.buffer.context != ctx.id {
        Err(refused(Refusal::PersistentForeign { role: Role::A }))
    } else if call.b@.buffer.context != ctx.id {
        Err(refused(Refusal::PersistentForeign { role: Role::B }))
    } else if call.c@.buffer.context != ctx.id {
        Err(refused(Refusal::PersistentForeign { role: Role::C }))
    } else if call.c@.buffer.handle == call.a@.buffer.handle || call.c@.buffer.handle
        == call.b@.buffer.handle {
        Err(refused(Refusal::PersistentAlias))
    } else {
        match resolve_call(call) {
            Err(e) => Err(e),
            Ok(dims) => {
                let tiles = tile_count(dims);
                let groups = least(
                    least(tiles, resident_groups(sm_count)),
                    ctx.max_groups_x as int,
                );
                if tiles > u32::MAX {
                    Err(refused(Refusal::PersistentTiles))
                } else if groups == 0 {
                    Err(refused(Refusal::PersistentNoGrid))
                } else {
                    Ok(
                        PreparedDispatch {
                            push: PersistentPushConstants {
                                m: dims.m,
                                n: dims.n,
                                k: dims.k,
                                batch_stride_a: dims.batch_stride_a,
                                batch_stride_b: dims.batch_stride_b,
                                batch_stride_c: dims.batch_stride_c,
                                flags: if call.accumulate { 1 } else { 0 },
                                alpha: call.alpha,
                                a_ptr: call.a@.buffer.address,
                                b_ptr: call.b@.buffer.address,
                                c_ptr: call.c@.buffer.address,
                                counter_ptr: counter,
                                grid_x: ceil_div(dims.n as int, TILE_N as int) as u32,
                                grid_y: ceil_div(dims.m as int, TILE_M as int) as u32,
                                num_tiles: tiles as u32,
                                pad: 0,
                            },
                            variant: variant_index(call, dims),
                            group_count_x: groups as u32,
                            total_flops: dims.total_flops,
                        },
                    )
                }
            },
        }
    }
}

/// Which pipeline runs a call: its flags as binary digits.
pub open spec fn variant_index(call: MatmulCall, dims: ResolvedMatmul) -> usize {
    ((if call.accumulate { 1int } else { 0 }) + (if call.alpha == Scalar::one() { 2int } else { 0 })
        + (if dims.m % TILE_M == 0 && dims.n % TILE_N == 0 { 4int } else { 0 }) + (if dims.k % TILE_K
        == 0 {
        8int
    } else {
        0
    })) as usize
}

/// A runner on one device.
pub struct PersistentMatmul {
    ctx: VulkanContext,
    sm_count: u32,
    counter_address: u64,
}

impl PersistentMatmul {
    /// What the runner is bound to: its device, its multiprocessors and the
    /// address of its counter.
    pub closed spec fn bound_to(&self) -> (VulkanContext, u32, u64) {
        (self.ctx, self.sm_count, self.counter_address)
    }

    /// A runner on `ctx` with a counter at the given address. The device has
    /// to support buffer addresses and to take the push constants.
    pub fn new(ctx: &VulkanContext, max_push_constants: u32, counter_address: u64) -> (r: Result<
        Self,
        Error,
    >)
        ensures
            match r {
                Ok(p) => ctx.buffer_device_address_enabled && max_push_constants >= PUSH_BYTES
                    && p.bound_to() == (*ctx, FALLBACK_SM_COUNT, counter_address),
                Err(e) => if !ctx.buffer_device_address_enabled {
                    e@ == refused(Refusal::PersistentNeedsAddresses)
                } else {
                    max_push_constants < PUSH_BYTES && e@ == refused(
                        Refusal::PersistentPushSize {
                            needed_bytes: PUSH_BYTES,
                            limit_bytes: max_push_constants,
                        },
                    )
                },
            },
    {
        if !ctx.buffer_device_address_enabled {
            return Err(Error::new(Refusal::PersistentNeedsAddresses));
        }
        if PUSH_BYTES > max_push_constants {
            return Err(
                Error::new(
                    Refusal::PersistentPushSize {
                        needed_bytes: PUSH_BYTES,
                        limit_bytes: max_push_constants,
                    },
                ),
            );
        }
        Ok(PersistentMatmul { ctx: *ctx, sm_count: FALLBACK_SM_COUNT, counter_address })
    }

    /// Plans a single matmul: one workgroup per tile, but no more than are
    /// resident and than the device takes.
    pub fn prepare_dispatch(&self, call: &MatmulCall<'_>) -> (r: Result<PreparedDispatch, Error>)
        ensures
            outcome(r) == dispatch_of(
                self.bound_to().0,
                self.bound_to().1,
                self.bound_to().2,
                *call,
            ),
    {
        if !call.a.belongs_to(&self.ctx) {
            return Err(Error::new(Refusal::PersistentForeign { role: Role::A }));
        }
        if !call.b.belongs_to(&self.ctx) {
            return Err(Error::new(Refusal::PersistentForeign { role: Role::B }));
        }
        if !call.c.belongs_to(&self.ctx) {
            return Err(Error::new(Refusal::PersistentForeign { role: Role::C }));
        }
        if call.c.raw_buffer() == call.a.raw_buffer() || call.c.raw_buffer()
            == call.b.raw_buffer() {
            return Err(Error::new(Refusal::PersistentAlias));
        }
        let dims: ResolvedMatmul = match ResolvedMatmul::from_call(call) {
            Ok(dims) => dims,
            Err(e) => return Err(e),
        };
        let grid_x: u32 = div_ceil(dims.n, TILE_N);
        let grid_y: u32 = div_ceil(dims.m, TILE_M);
        proof {
            resolved_is_addressable(call.a@.shape, call.b@.shape, call.c@.shape);
            lemma_mul_u32(grid_x as int, grid_y as int);
            assert(grid_x * grid_y * dims.batch <= dims.batch * (dims.m * dims.n))
                by (nonlinear_arith)
                requires
                    0 <= grid_x <= dims.n,
                    0 <= grid_y <= dims.m,
                    dims.batch > 0,
            ;
        }
        let tiles: u64 = grid_x as u64 * grid_y as u64 * dims.batch as u64;
        if tiles > u32::MAX as u64 {
            return Err(Error::new(Refusal::PersistentTiles));
        }
        let num_tiles: u32 = tiles as u32;
        let accumulate: usize = if call.accumulate { 1 } else { 0 };
        let alpha_is_one: usize = if call.alpha.is_one() { 2 } else { 0 };
        let interior: usize = if dims.m % TILE_M == 0 && dims.n % TILE_N == 0 { 4 } else { 0 };
        let k_multiple: usize = if dims.k % TILE_K == 0 { 8 } else { 0 };
        let resident: u32 = if self.sm_count > u32::MAX / WG_PER_SM {
            u32::MAX
        } else {
            WG_PER_SM * self.sm_count
        };
        let wanted: u32 = if num_tiles < resident { num_tiles } else { resident };
        let groups: u32 = if wanted < self.ctx.max_groups_x {
            wanted
        } else {
            self.ctx.max_groups_x
        };
        if groups == 0 {
            return Err(Error::new(Refusal::PersistentNoGrid));
        }
        Ok(
            PreparedDispatch {
                push: PersistentPushConstants {
                    m: dims.m,
                    n: dims.n,
                    k: dims.k,
                    batch_stride_a: dims.batch_stride_a,
                    batch_stride_b: dims.batch_stride_b,
                    batch_stride_c: dims.batch_stride_c,
                    flags: if call.accumulate { 1 } else { 0 },
                    alpha: call.alpha,
                    a_ptr: call.a.device_address(),
                    b_ptr: call.b.device_address(),
                    c_ptr: call.c.device_address(),
                    counter_ptr: self.counter_address,
                    grid_x,
                    grid_y,
                    num_tiles,
                    pad: 0,
                },
                variant: accumulate + alpha_is_one + interior + k_multiple,
                group_count_x: groups,
                total_flops: dims.total_flops,
            },
        )
    }
}

/// The specialization constants of each pipeline are the binary digits of
/// its number.
pub fn variant_constants(variant: usize) -> (r: [u32; 4])
    requires
        variant < VARIANT_COUNT,
    ensures
        r@ == seq![
            (variant % 2) as u32,
            (variant / 2 % 2) as u32,
            (variant / 4 % 2) as u32,
            (variant / 8 % 2) as u32,
        ],
{
    let r: [u32; 4] = [
        (variant % 2) as u32,
        (variant / 2 % 2) as u32,
        (variant / 4 % 2) as u32,
        (variant / 8 % 2) as u32,
    ];
    assert(r@ =~= seq![
        (variant % 2) as u32,
        (variant / 2 % 2) as u32,
        (variant / 4 % 2) as u32,
        (variant / 8 % 2) as u32,
    ]);
    r
}

/// A planned dispatch has at least one workgroup and no more than there are
/// tiles, and its pipeline is one of those that are built.
pub proof fn dispatch_is_bounded(ctx: VulkanContext, sm_count: u32, counter: u64, call: MatmulCall)
    requires
        dispatch_of(ctx, sm_count, counter, call) is Ok,
    ensures
        ({
            let d = dispatch_of(ctx, sm_count, counter, call)->Ok_0;
            &&& 1 <= d.group_count_x <= d.push.num_tiles
            &&& d.group_count_x <= ctx.max_groups_x
            &&& d.variant < VARIANT_COUNT
        }),
{
    let dims = resolve_call(call)->Ok_0;
    lemma_ceil_div(dims.n as int, 64);
    lemma_ceil_div(dims.m as int, 128);
    let x = ceil_div(dims.n as int, 64);
    let y = ceil_div(dims.m as int, 128);
    assert(x * y * dims.batch >= 0) by (nonlinear_arith)
        requires
            x >= 0,
            y >= 0,
            dims.batch >= 0,
    ;
}

} // verus!
