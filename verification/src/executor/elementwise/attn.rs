//! Decode attention: one query row per head over a cache, in two stages.

use crate::arith::lemma_mul_u32;
use crate::context::VulkanContext;
use crate::dtype::DType;
use crate::error::{outcome, refused, refused_shapes, Error, ErrorView, OpName, Refusal, Role};
use crate::executor::elementwise::common::{
    attn_decode_num_chunks, decode_chunks, f32_result, planned, AttnDecodeDesc, ElementwiseDispatch,
    ElementwiseKernel, Op, ATTN_DECODE_MAX_CHUNKS,
};
use crate::executor::elementwise::pc::{AttnCombinePc, AttnDecodePc, PushBlock};
use crate::executor::plan::Executor;
use crate::executor::validation::context_result;
use crate::tensor::{Tensor, TensorView};
use vstd::prelude::*;

verus! {

/// Operands of a decode attention.
pub struct AttnOperands {
    pub q: TensorView,
    pub kt: TensorView,
    pub v: TensorView,
    pub scratch: TensorView,
    pub out: TensorView,
}

/// Query rows per cache head.
pub open spec fn group_of(o: AttnOperands) -> int {
    o.q.len() as int / (o.kt.shape[0] * o.kt.shape[1])
}

/// Chunks of a dispatch: fixed where the position is read at execution time.
pub open spec fn chunks_of(desc: AttnDecodeDesc) -> int {
    if desc.pos_addr != 0 {
        ATTN_DECODE_MAX_CHUNKS as int
    } else {
        decode_chunks(desc.kv_len)
    }
}

/// Scratch elements that the first stage writes: a row of the head dimension
/// and two sums per chunk and query row.
pub open spec fn scratch_needed(kv_heads: int, chunks: int, group: int, dh: int) -> int {
    kv_heads * chunks * group * (dh + 2)
}

/// The first check on the operands that fails.
pub open spec fn attn_refusal(ctx: VulkanContext, o: AttnOperands, desc: AttnDecodeDesc) -> Option<ErrorView> {
    let op = OpName::AttnDecode;
    let kv_heads = o.kt.shape[0];
    let dh = o.kt.shape[1];
    let t_max = o.kt.shape[2];
    let group = group_of(o);
    let chunks = chunks_of(desc);
    let needed = scratch_needed(kv_heads as int, chunks, group, dh as int);
    if let Err(e) = f32_result(ctx, o.q, op, Role::Q) {
        Some(e)
    } else if let Err(e) = context_result(ctx, o.kt, Role::Kt) {
        Some(e)
    } else if let Err(e) = context_result(ctx, o.v, Role::V) {
        Some(e)
    } else if let Err(e) = f32_result(ctx, o.scratch, op, Role::Scratch) {
        Some(e)
    } else if let Err(e) = f32_result(ctx, o.out, op, Role::Out) {
        Some(e)
    } else if o.kt.dtype != o.v.dtype {
        Some(refused(Refusal::CacheStorage { op, kt: o.kt.dtype, v: o.v.dtype }))
    } else if o.kt.shape.len() != 3 {
        Some(refused_shapes(Refusal::KtShape { op }, o.kt.shape, Seq::empty()))
    } else if o.v.shape.len() != 3 {
        Some(refused_shapes(Refusal::VShape { op }, o.v.shape, Seq::empty()))
    } else if o.v.shape[2] != dh || o.v.shape[1] != t_max || o.v.shape[0] != kv_heads {
        Some(refused_shapes(Refusal::AttnCaches, o.kt.shape, o.v.shape))
    } else if dh != 64 {
        Some(refused(Refusal::AttnHeadDim { dh }))
    } else if o.q.len() as int % (kv_heads * dh) != 0 {
        Some(refused(Refusal::AttnQ { len: o.q.len() as u64, kv_heads, dh }))
    } else if group > u32::MAX {
        Some(refused(Refusal::AttnGroupOverflow))
    } else if group > 8 {
        Some(refused(Refusal::AttnGroup { group: group as u32 }))
    } else if o.out.len() != o.q.len() {
        Some(
            refused(
                Refusal::AttnOut { out_len: o.out.len() as u64, q_len: o.q.len() as u64 },
            ),
        )
    } else if desc.kv_len == 0 || desc.kv_len > t_max {
        Some(refused(Refusal::AttnKvLen { kv_len: desc.kv_len, t_max }))
    } else if o.scratch.len() < needed {
        Some(
            refused(
                Refusal::AttnScratch {
                    len: o.scratch.len() as u64,
                    needed: needed as u64,
                    kv_heads,
                    chunks: chunks as u32,
                    group: group as u32,
                },
            ),
        )
    } else {
        None
    }
}

/// The rows that the second stage merges fit the numbers that a dispatch
/// takes, where the first stage can be dispatched.
pub open spec fn attn_fits(ctx: VulkanContext, o: AttnOperands, desc: AttnDecodeDesc) -> bool {
    attn_refusal(ctx, o, desc) is None && ctx.buffer_device_address_enabled && chunks_of(desc)
        <= ctx.max_groups_x && o.kt.shape[0] <= ctx.max_groups_y ==> o.kt.shape[0] * group_of(o)
        <= u32::MAX
}

/// The two dispatches of a decode attention: one workgroup per chunk and
/// cache head writes partial sums to scratch, one per query row merges them.
pub open spec fn attn_plan(ctx: VulkanContext, o: AttnOperands, desc: AttnDecodeDesc) -> Result<
    (ElementwiseDispatch, ElementwiseDispatch),
    ErrorView,
> {
    let kv_heads = o.kt.shape[0];
    let dh = o.kt.shape[1];
    let group = group_of(o);
    let chunks = chunks_of(desc);
    match attn_refusal(ctx, o, desc) {
        Some(e) => Err(e),
        None => match planned(
            ctx,
            ElementwiseKernel::Simt(
                if o.kt.dtype == DType::F16 {
                    Op::AttnDecodeKv16Dh64
                } else {
                    Op::AttnDecodeDh64
                },
            ),
            PushBlock::AttnDecode(
                AttnDecodePc {
                    kv_len: desc.kv_len,
                    num_chunks: chunks as u32,
                    group: group as u32,
                    t_max: o.kt.shape[2],
                    scale: desc.scale,
                    pad: 0,
                    q_ptr: o.q.buffer.address,
                    kt_ptr: o.kt.buffer.address,
                    v_ptr: o.v.buffer.address,
                    scratch_ptr: o.scratch.buffer.address,
                    pos_ptr: desc.pos_addr,
                },
            ),
            chunks as u32,
            kv_heads,
        ) {
            Err(e) => Err(e),
            Ok(stage1) => match planned(
                ctx,
                ElementwiseKernel::Simt(Op::AttnDecodeCombine),
                PushBlock::AttnCombine(
                    AttnCombinePc {
                        num_chunks: chunks as u32,
                        group: group as u32,
                        dh,
                        pad: 0,
                        scratch_ptr: o.scratch.buffer.address,
                        out_ptr: o.out.buffer.address,
                    },
                ),
                (kv_heads * group) as u32,
                1,
            ) {
                Err(e) => Err(e),
                Ok(combine) => Ok((stage1, combine)),
            },
        },
    }
}

/// The views of the operands.
pub open spec fn attn_operands(q: &Tensor, kt: &Tensor, v: &Tensor, scratch: &Tensor, out: &Tensor) -> AttnOperands {
    AttnOperands { q: q@, kt: kt@, v: v@, scratch: scratch@, out: out@ }
}

/// What a decode attention divides its work by.
struct AttnExtents {
    kv_heads: u32,
    dh: u32,
    t_max: u32,
    group: u32,
    chunks: u32,
}

impl Executor {
    /// Decides [`attn_fits`].
    pub fn check_attn_fits(
        &self,
        q: &Tensor,
        kt: &Tensor,
        v: &Tensor,
        scratch: &Tensor,
        out: &Tensor,
        desc: AttnDecodeDesc,
    ) -> (r: bool)
        ensures
            r == attn_fits(self@.ctx, attn_operands(q, kt, v, scratch, out), desc),
    {
        let x: AttnExtents = match self.attn_extents(q, kt, v, scratch, out, desc) {
            Ok(x) => x,
            Err(_) => return true,
        };
        let ctx: &VulkanContext = self.context();
        if !ctx.buffer_device_address_enabled || x.chunks > ctx.max_groups_x || x.kv_heads
            > ctx.max_groups_y {
            return true;
        }
        proof {
            lemma_mul_u32(x.kv_heads as int, x.group as int);
        }
        x.kv_heads as u64 * x.group as u64 <= u32::MAX as u64
    }

    /// Plans both dispatches of a decode attention. A barrier has to stand
    /// between them. `q` and `out` are `[kv_heads, group, dh]` or a reshape of
    /// it, `kt` is `[H_kv, dh, T_max]`, `v` is `[H_kv, T_max, dh]`; `dh` has to
    /// be 64 and the group at most 8.
    pub fn plan_attn_decode(
        &self,
        q: &Tensor,
        kt: &Tensor,
        v: &Tensor,
        scratch: &Tensor,
        out: &Tensor,
        desc: AttnDecodeDesc,
    ) -> (r: Result<(ElementwiseDispatch, ElementwiseDispatch), Error>)
        requires
            attn_fits(self@.ctx, attn_operands(q, kt, v, scratch, out), desc),
        ensures
            outcome(r) == attn_plan(self@.ctx, attn_operands(q, kt, v, scratch, out), desc),
    {
        let x: AttnExtents = match self.attn_extents(q, kt, v, scratch, out, desc) {
            Ok(x) => x,
            Err(e) => return Err(e),
        };
        let kernel: Op = if kt.dtype() == DType::F16 {
            Op::AttnDecodeKv16Dh64
        } else {
            Op::AttnDecodeDh64
        };
        let stage1: ElementwiseDispatch = match self.plan_elementwise(
            ElementwiseKernel::Simt(kernel),
            PushBlock::AttnDecode(
                AttnDecodePc {
                    kv_len: desc.kv_len,
                    num_chunks: x.chunks,
                    group: x.group,
                    t_max: x.t_max,
                    scale: desc.scale,
                    pad: 0,
                    q_ptr: q.device_address(),
                    kt_ptr: kt.device_address(),
                    v_ptr: v.device_address(),
                    scratch_ptr: scratch.device_address(),
                    pos_ptr: desc.pos_addr,
                },
            ),
            x.chunks,
            x.kv_heads,
        ) {
            Ok(dispatch) => dispatch,
            Err(e) => return Err(e),
        };
        match self.plan_elementwise(
            ElementwiseKernel::Simt(Op::AttnDecodeCombine),
            PushBlock::AttnCombine(
                AttnCombinePc {
                    num_chunks: x.chunks,
                    group: x.group,
                    dh: x.dh,
                    pad: 0,
                    scratch_ptr: scratch.device_address(),
                    out_ptr: out.device_address(),
                },
            ),
            x.kv_heads * x.group,
            1,
        ) {
            Ok(combine) => Ok((stage1, combine)),
            Err(e) => Err(e),
        }
    }

    fn attn_extents(
        &self,
        q: &Tensor,
        kt: &Tensor,
        v: &Tensor,
        scratch: &Tensor,
        out: &Tensor,
        desc: AttnDecodeDesc,
    ) -> (r: Result<AttnExtents, Error>)
        ensures
            ({
                let o = attn_operands(q, kt, v, scratch, out);
                match attn_refusal(self@.ctx, o, desc) {
                    Some(e) => r is Err && r->Err_0@ == e,
                    None => {
                        &&& r is Ok
                        &&& r->Ok_0.kv_heads == o.kt.shape[0]
                        &&& r->Ok_0.dh == o.kt.shape[1]
                        &&& r->Ok_0.t_max == o.kt.shape[2]
                        &&& r->Ok_0.group == group_of(o)
                        &&& r->Ok_0.chunks == chunks_of(desc)
                    },
                }
            }),
    {
        let op: OpName = OpName::AttnDecode;
        if let Err(e) = self.ensure_f32(q, op, Role::Q) {
            return Err(e);
        }
        if let Err(e) = self.validate_tensor_context(kt, Role::Kt) {
            return Err(e);
        }
        if let Err(e) = self.validate_tensor_context(v, Role::V) {
            return Err(e);
        }
        if let Err(e) = self.ensure_f32(scratch, op, Role::Scratch) {
            return Err(e);
        }
        if let Err(e) = self.ensure_f32(out, op, Role::Out) {
            return Err(e);
        }
        if kt.dtype() != v.dtype() {
            return Err(Error::new(Refusal::CacheStorage { op, kt: kt.dtype(), v: v.dtype() }));
        }
        let none: [u32; 0] = [];
        assert(none@ =~= Seq::<u32>::empty());
        let kt_shape: &[u32] = kt.shape();
        let v_shape: &[u32] = v.shape();
        if kt_shape.len() != 3 {
            return Err(Error::with_shapes(Refusal::KtShape { op }, kt_shape, none.as_slice()));
        }
        if v_shape.len() != 3 {
            return Err(Error::with_shapes(Refusal::VShape { op }, v_shape, none.as_slice()));
        }
        let kv_heads: u32 = kt_shape[0];
        let dh: u32 = kt_shape[1];
        let t_max: u32 = kt_shape[2];
        if v_shape[2] != dh || v_shape[1] != t_max || v_shape[0] != kv_heads {
            return Err(Error::with_shapes(Refusal::AttnCaches, kt_shape, v_shape));
        }
        if dh != 64 {
            return Err(Error::new(Refusal::AttnHeadDim { dh }));
        }
        let kt_len: u64 = kt.len();
        assert(kt@.shape[0] != 0);
        proof {
            lemma_mul_u32(kv_heads as int, dh as int);
        }
        let heads_elems: u64 = kv_heads as u64 * dh as u64;
        let q_len: u64 = q.len();
        if q_len % heads_elems != 0 {
            return Err(Error::new(Refusal::AttnQ { len: q_len, kv_heads, dh }));
        }
        let ratio: u64 = q_len / heads_elems;
        if ratio > u32::MAX as u64 {
            return Err(Error::new(Refusal::AttnGroupOverflow));
        }
        let group: u32 = ratio as u32;
        if group > 8 {
            return Err(Error::new(Refusal::AttnGroup { group }));
        }
        let out_len: u64 = out.len();
        if out_len != q_len {
            return Err(Error::new(Refusal::AttnOut { out_len, q_len }));
        }
        if desc.kv_len == 0 || desc.kv_len > t_max {
            return Err(Error::new(Refusal::AttnKvLen { kv_len: desc.kv_len, t_max }));
        }
        let chunks: u32 = if desc.pos_addr != 0 {
            ATTN_DECODE_MAX_CHUNKS
        } else {
            attn_decode_num_chunks(desc.kv_len)
        };
        proof {
            assert(0 <= kv_heads * chunks <= 0xFFFF_FFFF * 32) by (nonlinear_arith)
                requires
                    0 <= kv_heads <= 0xFFFF_FFFF,
                    0 <= chunks <= 32,
            ;
            assert(0 <= kv_heads * chunks * group <= 0xFFFF_FFFF * 32 * 8) by (nonlinear_arith)
                requires
                    0 <= kv_heads * chunks <= 0xFFFF_FFFF * 32,
                    0 <= group <= 8,
            ;
            let rows = kv_heads * chunks * group;
            assert(0 <= rows * (dh + 2) <= 0xFFFF_FFFF * 32 * 8 * 66) by (nonlinear_arith)
                requires
                    dh == 64,
                    0 <= rows <= 0xFFFF_FFFF * 32 * 8,
            ;
        }
        let needed: u64 = kv_heads as u64 * chunks as u64 * group as u64 * (dh as u64 + 2);
        let scratch_len: u64 = scratch.len();
        if scratch_len < needed {
            return Err(
                Error::new(
                    Refusal::AttnScratch { len: scratch_len, needed, kv_heads, chunks, group },
                ),
            );
        }
        Ok(AttnExtents { kv_heads, dh, t_max, group, chunks })
    }
}

/// A scratch tensor for the largest number of chunks serves every length.
pub proof fn largest_scratch_serves_every_length(
    kv_heads: int,
    group: int,
    dh: int,
    desc: AttnDecodeDesc,
)
    requires
        kv_heads >= 0,
        group >= 0,
        dh >= 0,
    ensures
        scratch_needed(kv_heads, chunks_of(desc), group, dh) <= scratch_needed(
            kv_heads,
            ATTN_DECODE_MAX_CHUNKS as int,
            group,
            dh,
        ),
{
    let c = chunks_of(desc);
    assert(kv_heads * c * group * (dh + 2) <= kv_heads * 32 * group * (dh + 2)) by (nonlinear_arith)
        requires
            kv_heads >= 0,
            group >= 0,
            dh >= 0,
            0 <= c <= 32,
    ;
}

} // verus!
