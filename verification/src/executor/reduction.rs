//! Planning of explicit two-stage split-K calls.

use crate::error::{refused, Error, ErrorView, Refusal};
use crate::executor::plan::{Executor, ExecutorView};
use crate::executor::splitk::{default_num_k_splits, default_splits, output_tiles};
use crate::executor::splitk2::{split_plan, stage1_tile, SplitK2Dispatch};
use crate::executor::validation::call_context_result;
use crate::matmul::api::MatmulCall;
use crate::matmul::resolution::{resolve_call, resolved_is_addressable, ResolvedMatmul};
use vstd::prelude::*;

verus! {

/// What an explicit split-K call comes to.
#[derive(Copy, Clone, Debug, PartialEq, Eq, Structural)]
pub enum SplitRequest {
    /// One split: the regular path.
    Regular,
    /// Both stages, with this much scratch.
    Split { dims: ResolvedMatmul, plan: SplitK2Dispatch },
}

/// The number of splits of a request; 0 stands for the default of the shape.
pub open spec fn requested_splits(dims: ResolvedMatmul, num_k_splits: u32) -> int {
    if num_k_splits == 0 {
        let tile = stage1_tile(dims.m, dims.n);
        default_splits(output_tiles(dims.batch, dims.m, dims.n, tile, tile), dims.k)
    } else {
        num_k_splits as int
    }
}

/// What an explicit split-K call comes to, or the first check that it fails.
pub open spec fn split_request(x: ExecutorView, call: MatmulCall, num_k_splits: u32) -> Result<
    SplitRequest,
    ErrorView,
> {
    if let Err(e) = call_context_result(x.ctx, call) {
        Err(e)
    } else if call.accumulate {
        Err(refused(Refusal::SplitAccumulate))
    } else {
        match resolve_call(call) {
            Err(e) => Err(e),
            Ok(dims) => {
                let splits = requested_splits(dims, num_k_splits);
                if num_k_splits > 0xFFFF {
                    Err(refused(Refusal::SplitCountRange { splits: num_k_splits }))
                } else if num_k_splits > dims.k {
                    Err(refused(Refusal::SplitCountOverK { splits: num_k_splits, k: dims.k }))
                } else if splits <= 1 {
                    Ok(SplitRequest::Regular)
                } else if !x.ctx.buffer_device_address_enabled {
                    Err(refused(Refusal::SplitNoAddresses))
                } else {
                    match split_plan(x.ctx, dims, splits as u32) {
                        Err(e) => Err(e),
                        Ok(plan) => Ok(SplitRequest::Split { dims, plan }),
                    }
                }
            },
        }
    }
}

impl Executor {
    /// Plans an explicit split-K call. `num_k_splits == 0` takes the default
    /// of the shape; one split falls back to the regular path;
    /// accumulation is refused, since the reducer overwrites C.
    pub fn plan_matmuls_split_k2(&self, call: &MatmulCall<'_>, num_k_splits: u32) -> (r: Result<
        SplitRequest,
        Error,
    >)
        ensures
            crate::error::outcome(r) == split_request(self@, *call, num_k_splits),
    {
        if let Err(e) = self.validate_call_context(call) {
            return Err(e);
        }
        if call.accumulate {
            return Err(Error::new(Refusal::SplitAccumulate));
        }
        let dims: ResolvedMatmul = match ResolvedMatmul::from_call(call) {
            Ok(dims) => dims,
            Err(e) => return Err(e),
        };
        if num_k_splits > 0xFFFF {
            return Err(Error::new(Refusal::SplitCountRange { splits: num_k_splits }));
        }
        if num_k_splits > dims.k {
            return Err(
                Error::new(Refusal::SplitCountOverK { splits: num_k_splits, k: dims.k }),
            );
        }
        proof {
            resolved_is_addressable(call.a@.shape, call.b@.shape, call.c@.shape);
            lemma_tiles_fit(dims);
        }
        let tile: u32 = if dims.m >= 128 && dims.n >= 128 { 128 } else { 64 };
        let splits: u32 = if num_k_splits == 0 {
            default_num_k_splits(dims.batch, dims.m, dims.n, dims.k, tile, tile)
        } else {
            num_k_splits
        };
        if splits <= 1 {
            return Ok(SplitRequest::Regular);
        }
        if !self.context().buffer_device_address_enabled {
            return Err(Error::new(Refusal::SplitNoAddresses));
        }
        match SplitK2Dispatch::plan(self.context(), &dims, splits) {
            Ok(plan) => Ok(SplitRequest::Split { dims, plan }),
            Err(e) => Err(e),
        }
    }
}

/// The tiles of an addressable output fit.
proof fn lemma_tiles_fit(dims: ResolvedMatmul)
    requires
        dims.batch * (dims.m * dims.n) <= 0x1_0000_0000,
        dims.batch > 0,
        dims.m > 0,
        dims.n > 0,
    ensures
        ({
            let tile = stage1_tile(dims.m, dims.n);
            output_tiles(dims.batch, dims.m, dims.n, tile, tile) <= u64::MAX
        }),
{
    let tile = stage1_tile(dims.m, dims.n) as int;
    crate::arith::lemma_ceil_div(dims.m as int, tile);
    crate::arith::lemma_ceil_div(dims.n as int, tile);
    let rows = crate::arith::ceil_div(dims.m as int, tile);
    let cols = crate::arith::ceil_div(dims.n as int, tile);
    assert(rows * cols * dims.batch <= dims.batch * (dims.m * dims.n)) by (nonlinear_arith)
        requires
            0 <= rows <= dims.m,
            0 <= cols <= dims.n,
            dims.batch > 0,
    ;
}

} // verus!
