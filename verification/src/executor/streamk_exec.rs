//! Planning of Stream-K calls.

use crate::dtype::Scalar;
use crate::error::{outcome, refused, Error, ErrorView, OpName, Refusal};
use crate::executor::plan::{Executor, ExecutorView};
use crate::executor::streamk_schedule::{schedule_result, stream_k_tail, wave_tail, StreamKSchedule};
use crate::executor::validation::call_context_result;
use crate::matmul::api::MatmulCall;
use crate::matmul::resolution::{resolve_call, resolved_is_addressable, ResolvedMatmul};
use vstd::prelude::*;

verus! {

/// Multiprocessors assumed where the device does not say.
pub const STREAMK_FALLBACK_SM_COUNT: u32 = 46;

/// Output-tile extents and K strip of the Stream-K kernels.
pub const STREAMK_TILE: u32 = 128;

pub const STREAMK_TILE_K: u32 = 32;

/// Push constants of the Stream-K shaders. The front part is that of the
/// regular kernels; the data-parallel half reads nothing behind it.
#[derive(Copy, Clone, Debug, PartialEq, Eq, Structural)]
pub struct StreamKPushConstants {
    pub m: u32,
    pub n: u32,
    pub k: u32,
    pub batch_stride_a: u32,
    pub batch_stride_b: u32,
    pub batch_stride_c: u32,
    pub flags: u32,
    pub alpha: Scalar,
    pub a_ptr: u64,
    pub b_ptr: u64,
    pub c_ptr: u64,
    pub iters_per_tile: u32,
    pub iters_per_wg_sk: u32,
    pub rem_sk: u32,
    pub n_tiles: u32,
    pub dp_tiles_total: u32,
    pub g_sk: u32,
    pub total_iters_sk: u32,
    pub pad: u32,
}

/// The commands of a Stream-K call, in order: clear C, data-parallel
/// dispatch, barrier, tail dispatch; each only where it is needed.
#[derive(Copy, Clone, Debug, PartialEq, Eq, Structural)]
pub struct StreamKCommands {
    /// C is cleared, and a barrier follows: the tail adds into it.
    pub clear_c: bool,
    pub push: StreamKPushConstants,
    /// Rows of the data-parallel rectangle; its columns are `push.n_tiles`.
    /// No dispatch where it is zero.
    pub dp_rows: u32,
    /// A barrier stands between the two dispatches.
    pub barrier: bool,
    /// Workgroups of the tail. No dispatch where it is zero.
    pub tail_groups: u32,
    pub total_flops: u64,
}

/// The matmul of a Stream-K call, or the first check that it fails.
pub open spec fn stream_k_dims(x: ExecutorView, call: MatmulCall, op: OpName) -> Result<
    ResolvedMatmul,
    ErrorView,
> {
    if let Err(e) = call_context_result(x.ctx, call) {
        Err(e)
    } else if call.accumulate {
        Err(refused(Refusal::StreamKAccumulate { op }))
    } else {
        match resolve_call(call) {
            Err(e) => Err(e),
            Ok(dims) => if dims.batch != 1 {
                Err(refused(Refusal::StreamKBatch { op, batch: dims.batch }))
            } else if dims.m % STREAMK_TILE != 0 || dims.n % STREAMK_TILE != 0 || dims.k
                % STREAMK_TILE_K != 0 {
                Err(refused(Refusal::StreamKShape { op, m: dims.m, n: dims.n, k: dims.k }))
            } else if !x.ctx.buffer_device_address_enabled {
                Err(refused(Refusal::StreamKNoAddresses { op }))
            } else if !x.ctx.atomic_float_add_enabled {
                Err(refused(Refusal::StreamKNoAtomics { op }))
            } else {
                Ok(dims)
            },
        }
    }
}

/// The schedule that gives every tile to the data-parallel half.
pub open spec fn dp_only_schedule(dims: ResolvedMatmul) -> StreamKSchedule {
    let n_tiles = dims.n / STREAMK_TILE;
    let total = ((dims.m / STREAMK_TILE) * n_tiles) as u32;
    StreamKSchedule {
        iters_per_tile: dims.k / STREAMK_TILE_K,
        iters_per_wg_sk: 0,
        rem_sk: 0,
        n_tiles,
        dp_tiles_total: total,
        g_sk: 0,
        total_iters_sk: 0,
        grid_total: total,
    }
}

/// Rows of the data-parallel rectangle.
pub open spec fn dp_rows_of(s: StreamKSchedule) -> u32 {
    if s.dp_tiles_total == 0 {
        0
    } else {
        s.dp_tiles_total / s.n_tiles
    }
}

/// The commands of a scheduled call, or why the device cannot take them.
pub open spec fn stream_k_commands(
    x: ExecutorView,
    call: MatmulCall,
    dims: ResolvedMatmul,
    s: StreamKSchedule,
) -> Result<StreamKCommands, ErrorView> {
    let dp_rows = dp_rows_of(s);
    if s.n_tiles > x.ctx.max_groups_x || dp_rows > x.ctx.max_groups_y || s.g_sk
        > x.ctx.max_groups_x {
        Err(
            refused(
                Refusal::StreamKGrid {
                    n_tiles: s.n_tiles,
                    dp_rows,
                    g_sk: s.g_sk,
                    max_x: x.ctx.max_groups_x,
                    max_y: x.ctx.max_groups_y,
                    max_z: x.ctx.max_groups_z,
                },
            ),
        )
    } else if s.grid_total == 0 {
        Err(refused(Refusal::StreamKEmpty { m: dims.m, n: dims.n, k: dims.k }))
    } else {
        Ok(
            StreamKCommands {
                clear_c: s.g_sk > 0,
                push: StreamKPushConstants {
                    m: dims.m,
                    n: dims.n,
                    k: dims.k,
                    batch_stride_a: dims.batch_stride_a,
                    batch_stride_b: dims.batch_stride_b,
                    batch_stride_c: dims.batch_stride_c,
                    flags: 0,
                    alpha: call.alpha,
                    a_ptr: call.a@.buffer.address,
                    b_ptr: call.b@.buffer.address,
                    c_ptr: call.c@.buffer.address,
                    iters_per_tile: s.iters_per_tile,
                    iters_per_wg_sk: s.iters_per_wg_sk,
                    rem_sk: s.rem_sk,
                    n_tiles: s.n_tiles,
                    dp_tiles_total: s.dp_tiles_total,
                    g_sk: s.g_sk,
                    total_iters_sk: s.total_iters_sk,
                    pad: 0,
                },
                dp_rows,
                barrier: s.g_sk > 0 && s.dp_tiles_total > 0,
                tail_groups: s.g_sk,
                total_flops: dims.total_flops,
            },
        )
    }
}

/// The plan of a Stream-K call.
pub open spec fn stream_k_plan(x: ExecutorView, call: MatmulCall) -> Result<
    StreamKCommands,
    ErrorView,
> {
    match stream_k_dims(x, call, OpName::RunMatmulsStreamK) {
        Err(e) => Err(e),
        Ok(dims) => match schedule_result(
            dims.m,
            dims.n,
            dims.k,
            STREAMK_TILE,
            STREAMK_TILE,
            STREAMK_TILE_K,
            STREAMK_FALLBACK_SM_COUNT,
        ) {
            Err(e) => Err(e),
            Ok(s) => stream_k_commands(x, call, dims, s),
        },
    }
}

impl Executor {
    /// The tail that Stream-K would pick up of a call and the size of a
    /// wave; none where the call has to take the regular path. It pays where
    /// the former is a small fraction of the latter.
    pub fn auto_stream_k_tail(&self, call: &MatmulCall<'_>) -> (r: Option<(u32, u32)>)
        ensures
            r == (if !call.accumulate && self@.ctx.buffer_device_address_enabled
                && self@.ctx.atomic_float_add_enabled && resolve_call(*call) is Ok && resolve_call(
                *call,
            )->Ok_0.batch == 1 {
                let dims = resolve_call(*call)->Ok_0;
                wave_tail(dims.m, dims.n, dims.k, STREAMK_FALLBACK_SM_COUNT)
            } else {
                None
            }),
    {
        if call.accumulate || !self.context().buffer_device_address_enabled
            || !self.context().atomic_float_add_enabled {
            return None;
        }
        match ResolvedMatmul::from_call(call) {
            Ok(dims) => if dims.batch == 1 {
                stream_k_tail(dims.m, dims.n, dims.k, STREAMK_FALLBACK_SM_COUNT)
            } else {
                None
            },
            Err(_) => None,
        }
    }

    fn check_stream_k(&self, call: &MatmulCall<'_>, op: OpName) -> (r: Result<ResolvedMatmul, Error>)
        ensures
            outcome(r) == stream_k_dims(self@, *call, op),
    {
        if let Err(e) = self.validate_call_context(call) {
            return Err(e);
        }
        if call.accumulate {
            return Err(Error::new(Refusal::StreamKAccumulate { op }));
        }
        let dims: ResolvedMatmul = match ResolvedMatmul::from_call(call) {
            Ok(dims) => dims,
            Err(e) => return Err(e),
        };
        if dims.batch != 1 {
            return Err(Error::new(Refusal::StreamKBatch { op, batch: dims.batch }));
        }
        if dims.m % STREAMK_TILE != 0 || dims.n % STREAMK_TILE != 0 || dims.k % STREAMK_TILE_K
            != 0 {
            return Err(
                Error::new(Refusal::StreamKShape { op, m: dims.m, n: dims.n, k: dims.k }),
            );
        }
        if !self.context().buffer_device_address_enabled {
            return Err(Error::new(Refusal::StreamKNoAddresses { op }));
        }
        if !self.context().atomic_float_add_enabled {
            return Err(Error::new(Refusal::StreamKNoAtomics { op }));
        }
        Ok(dims)
    }

    /// Plans a single matmul by Stream-K: M and N in multiples of 128, K of
    /// 32, one matrix, no accumulation.
    pub fn plan_matmuls_stream_k(&self, call: &MatmulCall<'_>) -> (r: Result<
        StreamKCommands,
        Error,
    >)
        ensures
            outcome(r) == stream_k_plan(self@, *call),
    {
        let dims: ResolvedMatmul = match self.check_stream_k(call, OpName::RunMatmulsStreamK) {
            Ok(dims) => dims,
            Err(e) => return Err(e),
        };
        match StreamKSchedule::try_for_shape(
            dims.m,
            dims.n,
            dims.k,
            STREAMK_TILE,
            STREAMK_TILE,
            STREAMK_TILE_K,
            STREAMK_FALLBACK_SM_COUNT,
        ) {
            Ok(schedule) => self.record_stream_k(call, &dims, &schedule),
            Err(e) => Err(e),
        }
    }

    /// Plans a single matmul by the data-parallel half of Stream-K alone.
    pub fn plan_matmuls_stream_k_dp_only(&self, call: &MatmulCall<'_>) -> (r: Result<
        StreamKCommands,
        Error,
    >)
        ensures
            outcome(r) == (match stream_k_dims(self@, *call, OpName::RunMatmulsStreamKDpOnly) {
                Err(e) => Err(e),
                Ok(dims) => stream_k_commands(self@, *call, dims, dp_only_schedule(dims)),
            }),
    {
        let dims: ResolvedMatmul = match self.check_stream_k(
            call,
            OpName::RunMatmulsStreamKDpOnly,
        ) {
            Ok(dims) => dims,
            Err(e) => return Err(e),
        };
        proof {
            resolved_is_addressable(call.a@.shape, call.b@.shape, call.c@.shape);
            assert((dims.m / 128) * (dims.n / 128) <= dims.m * dims.n / 128) by (nonlinear_arith)
                requires
                    dims.m >= 0,
                    dims.n >= 0,
            ;
            assert(dims.batch * (dims.m * dims.n) == dims.m * dims.n) by (nonlinear_arith)
                requires
                    dims.batch == 1,
            ;
        }
        let n_tiles: u32 = dims.n / STREAMK_TILE;
        let total: u32 = (dims.m / STREAMK_TILE) * n_tiles;
        let schedule: StreamKSchedule = StreamKSchedule {
            iters_per_tile: dims.k / STREAMK_TILE_K,
            iters_per_wg_sk: 0,
            rem_sk: 0,
            n_tiles,
            dp_tiles_total: total,
            g_sk: 0,
            total_iters_sk: 0,
            grid_total: total,
        };
        assert(schedule.n_tiles > 0) by {
            assert(dims.n >= 128);
        }
        self.record_stream_k(call, &dims, &schedule)
    }

    fn record_stream_k(&self, call: &MatmulCall<'_>, dims: &ResolvedMatmul, s: &StreamKSchedule) -> (r:
        Result<StreamKCommands, Error>)
        requires
            s.dp_tiles_total > 0 ==> s.n_tiles > 0,
        ensures
            outcome(r) == stream_k_commands(self@, *call, *dims, *s),
    {
        let ctx = self.context();
        let dp_rows: u32 = if s.dp_tiles_total == 0 {
            0
        } else {
            s.dp_tiles_total / s.n_tiles
        };
        if s.n_tiles > ctx.max_groups_x || dp_rows > ctx.max_groups_y || s.g_sk
            > ctx.max_groups_x {
            return Err(
                Error::new(
                    Refusal::StreamKGrid {
                        n_tiles: s.n_tiles,
                        dp_rows,
                        g_sk: s.g_sk,
                        max_x: ctx.max_groups_x,
                        max_y: ctx.max_groups_y,
                        max_z: ctx.max_groups_z,
                    },
                ),
            );
        }
        if s.grid_total == 0 {
            return Err(
                Error::new(Refusal::StreamKEmpty { m: dims.m, n: dims.n, k: dims.k }),
            );
        }
        Ok(
            StreamKCommands {
                clear_c: s.g_sk > 0,
                push: StreamKPushConstants {
                    m: dims.m,
                    n: dims.n,
                    k: dims.k,
                    batch_stride_a: dims.batch_stride_a,
                    batch_stride_b: dims.batch_stride_b,
                    batch_stride_c: dims.batch_stride_c,
                    flags: 0,
                    alpha: call.alpha,
                    a_ptr: call.a.device_address(),
                    b_ptr: call.b.device_address(),
                    c_ptr: call.c.device_address(),
                    iters_per_tile: s.iters_per_tile,
                    iters_per_wg_sk: s.iters_per_wg_sk,
                    rem_sk: s.rem_sk,
                    n_tiles: s.n_tiles,
                    dp_tiles_total: s.dp_tiles_total,
                    g_sk: s.g_sk,
                    total_iters_sk: s.total_iters_sk,
                    pad: 0,
                },
                dp_rows,
                barrier: s.g_sk > 0 && s.dp_tiles_total > 0,
                tail_groups: s.g_sk,
                total_flops: dims.total_flops,
            },
        )
    }
}

/// A Stream-K call dispatches something, the data-parallel rectangle holds
/// exactly its tiles, and C is cleared before anything adds into it.
pub proof fn stream_k_plan_is_sound(x: ExecutorView, call: MatmulCall)
    requires
        stream_k_plan(x, call) is Ok,
    ensures
        ({
            let c = stream_k_plan(x, call)->Ok_0;
            &&& c.dp_rows > 0 || c.tail_groups > 0
            &&& c.dp_rows * c.push.n_tiles == c.push.dp_tiles_total
            &&& c.tail_groups > 0 ==> c.clear_c
            &&& c.barrier <==> c.dp_rows > 0 && c.tail_groups > 0
            &&& c.dp_rows <= x.ctx.max_groups_y && c.push.n_tiles <= x.ctx.max_groups_x
                && c.tail_groups <= x.ctx.max_groups_x
        }),
{
    let dims = stream_k_dims(x, call, OpName::RunMatmulsStreamK)->Ok_0;
    let s = schedule_result(
        dims.m,
        dims.n,
        dims.k,
        STREAMK_TILE,
        STREAMK_TILE,
        STREAMK_TILE_K,
        STREAMK_FALLBACK_SM_COUNT,
    )->Ok_0;
    crate::executor::streamk_schedule::schedule_covers_every_tile(
        dims.m,
        dims.n,
        dims.k,
        STREAMK_TILE,
        STREAMK_TILE,
        STREAMK_TILE_K,
        STREAMK_FALLBACK_SM_COUNT,
    );
    let dp = s.dp_tiles_total as int;
    let w = s.n_tiles as int;
    vstd::arithmetic::div_mod::lemma_fundamental_div_mod(dp, w);
    assert(w * (dp / w) == (dp / w) * w) by (nonlinear_arith);
    if dp > 0 {
        assert(dp / w > 0) by (nonlinear_arith)
            requires
                dp == w * (dp / w) + 0,
                dp > 0,
                w > 0,
        ;
    }
}

} // verus!
