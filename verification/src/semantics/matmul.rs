//! What the matmul dispatches do to the operands of a call.

use crate::context::VulkanContext;
use crate::dtype::DType;
use crate::error::ErrorView;
use crate::executor::plan::{slot_kernel, OpPlan};
use crate::executor::recording::{batch_writes, dispatch_result, DescriptorWrite};
use crate::matmul::api::{Activation, EpilogueBinary, MatmulCall, MatmulOp, MatmulStore};
use crate::matmul::resolution::{
    resolve_call, resolve_op, resolved_is_addressable, MatrixShape, ResolvedMatmul,
};
use crate::pipeline::abi::MatmulPushConstants;
use crate::pipeline::catalog::KERNEL_COUNT;
use crate::semantics::elementwise::width;
use crate::semantics::memory::{at, covers, element, lemma_covers, lemma_rank1, lemma_rank2, lemma_rank3};
use crate::tensor::TensorView;
use vstd::prelude::*;

verus! {

/// The address that a matmul shader forms for an element of an operand.
pub open spec fn walk(ptr: u64, bytes: int, batch_stride: u32, row_len: u32, b: int, i: int, j: int) -> int {
    ptr + bytes * (b * batch_stride + i * row_len + j)
}

/// The index of an element of matrix `b` of an operand: a single matrix is
/// taken for the whole batch.
pub open spec fn cell(t: TensorView, b: int, i: int, j: int) -> Seq<int> {
    if t.shape.len() == 2 {
        seq![i, j]
    } else if t.shape[0] == 1 {
        seq![0, i, j]
    } else {
        seq![b, i, j]
    }
}

/// The matrices of an operand.
pub open spec fn matrices(t: TensorView) -> int {
    if t.shape.len() == 2 {
        1
    } else {
        t.shape[0] as int
    }
}

/// The rows of an operand's matrices.
pub open spec fn rows(t: TensorView) -> int {
    t.shape[t.shape.len() - 2] as int
}

/// The columns of an operand's matrices.
pub open spec fn cols(t: TensorView) -> int {
    t.shape[t.shape.len() - 1] as int
}

/// An operand of one or more matrices that the shaders can address.
pub open spec fn addressable(t: TensorView) -> bool {
    &&& t.shape.len() == 2 || t.shape.len() == 3
    &&& matrices(t) > 0 && rows(t) > 0 && cols(t) > 0
    &&& matrices(t) * (rows(t) * cols(t)) <= 0x1_0000_0000
    &&& matrices(t) > 1 ==> rows(t) * cols(t) <= 0xFFFF_FFFF
}

/// A call is resolved exactly where its operands are matrices that can be
/// multiplied into the output, of one batch or broadcast over it, and the
/// work can be counted.
pub proof fn call_resolves_exactly(call: MatmulCall)
    ensures
        resolve_call(call) is Ok <==> {
            let (a, b, c) = (call.a@, call.b@, call.c@);
            &&& addressable(a) && addressable(b) && addressable(c)
            &&& cols(a) == rows(b) && rows(a) == rows(c) && cols(b) == cols(c)
            &&& matrices(a) == 1 || matrices(a) == matrices(c)
            &&& matrices(b) == 1 || matrices(b) == matrices(c)
            &&& 2 * matrices(c) * rows(a) * cols(b) * cols(a) <= u64::MAX
        },
{
    let (a, b, c) = (call.a@, call.b@, call.c@);
    let (sa, sb, sc) = (
        MatrixShape::of_shape(a.shape),
        MatrixShape::of_shape(b.shape),
        MatrixShape::of_shape(c.shape),
    );
    if sa is Ok && sb is Ok && sc is Ok {
        let (sa, sb, sc) = (sa->Ok_0, sb->Ok_0, sc->Ok_0);
        crate::matmul::resolution::lemma_flops(sc.batch, sa.rows, sb.cols, sa.cols);
    }
}

/// The extents and strides of a resolved call walk its operands: whatever
/// matrix, row and column of the output is taken, the element of each operand
/// that the product asks for is the one whose address the shader forms.
pub proof fn resolved_extents_walk_the_operands(call: MatmulCall, b: int, i: int, j: int, p: int)
    requires
        resolve_call(call) is Ok,
        0 <= b < matrices(call.c@),
        0 <= i < rows(call.c@),
        0 <= j < cols(call.c@),
        0 <= p < cols(call.a@),
    ensures
        ({
            let d = resolve_call(call)->Ok_0;
            &&& d.batch == matrices(call.c@)
            &&& d.m == rows(call.c@) && d.m == rows(call.a@)
            &&& d.n == cols(call.c@) && d.n == cols(call.b@)
            &&& d.k == cols(call.a@) && d.k == rows(call.b@)
            &&& d.a_f16 <==> call.a@.dtype == DType::F16
            &&& d.b_f16 <==> call.b@.dtype == DType::F16
            &&& !d.packed_b
            &&& d.total_flops == 2 * d.batch * d.m * d.n * d.k
            &&& walk(
                call.a@.buffer.address,
                width(call.a@.dtype),
                d.batch_stride_a,
                d.k,
                b,
                i,
                p,
            ) == element(call.a@, cell(call.a@, b, i, p))
            &&& walk(
                call.b@.buffer.address,
                width(call.b@.dtype),
                d.batch_stride_b,
                d.n,
                b,
                p,
                j,
            ) == element(call.b@, cell(call.b@, b, p, j))
            &&& walk(
                call.c@.buffer.address,
                width(call.c@.dtype),
                d.batch_stride_c,
                d.n,
                b,
                i,
                j,
            ) == element(call.c@, cell(call.c@, b, i, j))
        }),
{
    resolved_is_addressable(call.a@.shape, call.b@.shape, call.c@.shape);
    let d = resolve_call(call)->Ok_0;
    lemma_walk(call.a@, d.batch_stride_a, b, i, p);
    lemma_walk(call.b@, d.batch_stride_b, b, p, j);
    lemma_walk(call.c@, d.batch_stride_c, b, i, j);
}

proof fn lemma_walk(t: TensorView, stride: u32, b: int, i: int, j: int)
    requires
        t.shape.len() == 2 || t.shape.len() == 3,
        stride == (if matrices(t) == 1 {
            0
        } else {
            rows(t) * cols(t)
        }),
        matrices(t) == 1 && t.shape.len() == 3 ==> t.shape[0] == 1,
    ensures
        walk(t.buffer.address, width(t.dtype), stride, t.shape[t.shape.len() - 1], b, i, j)
            == element(t, cell(t, b, i, j)),
{
    let n = cols(t);
    let m = rows(t);
    assert(b * 0 == 0);
    if t.shape.len() == 2 {
        lemma_rank2(t.shape, i, j);
    } else if t.shape[0] == 1 {
        lemma_rank3(t.shape, 0, i, j);
        assert((0 * m + i) * n + j == i * n + j);
    } else {
        lemma_rank3(t.shape, b, i, j);
        assert((b * m + i) * n + j == b * (m * n) + i * n + j) by (nonlinear_arith);
    }
}

/// The address of the bias of a column that a shader forms.
pub open spec fn bias_walk(push: MatmulPushConstants, b: int, j: int) -> int {
    push.bias_ptr + 4 * (b * push.bias_batch_stride + j)
}

/// The element of a fused scatter's destination that a shader forms for an
/// output column, where the position cell holds `held`.
pub open spec fn store_walk(push: MatmulPushConstants, j: int, held: int) -> int {
    (push.store_pos_base + held) * push.store_pos_scale + (j / push.store_head_dim as int)
        * push.store_stride_head + (j % push.store_head_dim as int) * push.store_stride_dim
}

/// The address of the cosine that a fused rotation reads for an output
/// column.
pub open spec fn store_turn(push: MatmulPushConstants, j: int, held: int) -> int {
    push.store_table_ptr + 4 * (((push.store_pos_base + held) * (push.store_head_dim as int / 2) + (
    j % push.store_head_dim as int) / 2) * 2)
}

/// A recorded matmul multiplies the operands of its call: for every element
/// of the output, each term of the product reads the elements of A and B that
/// the product asks for, and the result goes to its place in C, scaled and
/// accumulated as the call says. The workgroups cover the output, and the
/// shader is specialized to nothing that does not hold of the call.
pub proof fn recorded_matmul_multiplies_its_operands(
    ctx: VulkanContext,
    op: MatmulOp,
    dims: ResolvedMatmul,
    slot: usize,
    b: int,
    i: int,
    j: int,
    p: int,
)
    requires
        slot < KERNEL_COUNT,
        resolve_op(op) == Ok::<ResolvedMatmul, ErrorView>(dims),
        dispatch_result(ctx, op, dims, slot) is Ok,
        0 <= b < matrices(op.call.c@),
        0 <= i < rows(op.call.c@),
        0 <= j < cols(op.call.c@),
        0 <= p < cols(op.call.a@),
    ensures
        ({
            let d = dispatch_result(ctx, op, dims, slot)->Ok_0;
            let kernel = slot_kernel(slot);
            let (a, w, c) = (op.call.a@, op.call.b@, op.call.c@);
            &&& d.pipeline.kernel == slot
            &&& d.uses_descriptors == kernel.uses_descriptors
            &&& d.gz == matrices(c)
            &&& covers(d.gy as int, kernel.tile_m as int, rows(c))
            &&& covers(d.gx as int, kernel.tile_n as int, cols(c))
            &&& d.gx <= ctx.max_groups_x && d.gy <= ctx.max_groups_y && d.gz <= ctx.max_groups_z
            &&& d.push.m == rows(c) && d.push.n == cols(c) && d.push.k == cols(a)
            &&& d.push.alpha == op.call.alpha
            &&& d.push.flags % 2 == 1 <==> op.call.accumulate
            &&& d.push.flags < 4
            &&& d.pipeline.variant.accumulate <==> op.call.accumulate
            &&& d.pipeline.variant.alpha_is_one <==> op.call.alpha.bits == 0x3F80_0000
            &&& d.pipeline.variant.interior_only <==> rows(c) % kernel.tile_m as int == 0 && cols(c)
                % kernel.tile_n as int == 0
            &&& d.pipeline.variant.k_multiple <==> kernel.tile_k > 1 && cols(a) % kernel.tile_k as int
                == 0
            &&& ctx.buffer_device_address_enabled ==> {
                &&& walk(d.push.a_ptr, width(a.dtype), d.push.batch_stride_a, d.push.k, b, i, p)
                    == element(a, cell(a, b, i, p))
                &&& !op.packed_b ==> walk(
                    d.push.b_ptr,
                    width(w.dtype),
                    d.push.batch_stride_b,
                    d.push.n,
                    b,
                    p,
                    j,
                ) == element(w, cell(w, b, p, j))
                &&& d.push.b_ptr == w.buffer.address
                &&& walk(d.push.c_ptr, width(c.dtype), d.push.batch_stride_c, d.push.n, b, i, j)
                    == element(c, cell(c, b, i, j))
            }
            &&& !ctx.buffer_device_address_enabled ==> d.push.a_ptr == 0 && d.push.b_ptr == 0
                && d.push.c_ptr == 0
        }),
{
    resolved_extents_walk_the_operands(op.call, b, i, j, p);
    let kernel = slot_kernel(slot);
    assert(kernel.tile_m > 0 && kernel.tile_n > 0 && kernel.tile_k > 0);
    lemma_covers(dims.m as int, kernel.tile_m as int);
    lemma_covers(dims.n as int, kernel.tile_n as int);
}

/// A recorded matmul carries the operation's epilogue to the shader: the
/// element of the bias row that belongs to the column, the element of `d` at
/// the output's own place with the very scale that the caller gave, or as a
/// gate; the activation by its code; and the norm's weight and epsilon in
/// the place of a bias and a scale.
pub proof fn recorded_matmul_carries_the_epilogue(
    ctx: VulkanContext,
    op: MatmulOp,
    dims: ResolvedMatmul,
    slot: usize,
    b: int,
    i: int,
    j: int,
)
    requires
        slot < KERNEL_COUNT,
        resolve_op(op) == Ok::<ResolvedMatmul, ErrorView>(dims),
        dispatch_result(ctx, op, dims, slot) is Ok,
        0 <= b < matrices(op.call.c@),
        0 <= i < rows(op.call.c@),
        0 <= j < cols(op.call.c@),
    ensures
        ({
            let d = dispatch_result(ctx, op, dims, slot)->Ok_0;
            let c = op.call.c@;
            let key = d.pipeline.epilogue;
            &&& key.bias <==> op.epilogue.bias is Some
            &&& match op.epilogue.activation {
                Activation::Absent => key.activation == 0,
                Activation::Relu => key.activation == 1,
                Activation::Silu => key.activation == 2,
                Activation::Gelu => key.activation == 3,
            }
            &&& match op.epilogue.binary {
                EpilogueBinary::Absent => key.binary == 0 && d.push.d_ptr == 0,
                EpilogueBinary::AddScaled { d: other, beta } => {
                    &&& key.binary == 1
                    &&& d.push.beta == beta
                    &&& d.push.d_ptr == other@.buffer.address
                    &&& other@.shape == c.shape
                    &&& walk(
                        d.push.d_ptr,
                        width(other@.dtype),
                        d.push.batch_stride_c,
                        d.push.n,
                        b,
                        i,
                        j,
                    ) == element(other@, cell(other@, b, i, j))
                },
                EpilogueBinary::Mul { d: other } => {
                    &&& key.binary == 2
                    &&& d.push.d_ptr == other@.buffer.address
                    &&& other@.shape == c.shape
                    &&& walk(
                        d.push.d_ptr,
                        width(other@.dtype),
                        d.push.batch_stride_c,
                        d.push.n,
                        b,
                        i,
                        j,
                    ) == element(other@, cell(other@, b, i, j))
                },
            }
            &&& op.epilogue.bias matches Some(bias) ==> {
                &&& bias@.shape.len() == 1 || bias@.shape.len() == 2
                &&& d.push.bias_ptr == bias@.buffer.address
                &&& bias@.dtype == DType::F32 ==> bias_walk(d.push, b, j) == element(
                    bias@,
                    if bias@.shape.len() == 1 {
                        seq![j]
                    } else {
                        seq![b, j]
                    },
                )
                &&& bias@.shape.len() == 1 ==> d.push.bias_batch_stride == 0
                &&& matrices(c) > 1 && bias@.shape.len() == 2 ==> d.push.bias_batch_stride == cols(c)
            }
            &&& d.push.flags as int / 2 % 2 == 1 <==> op.normed_a is Some
            &&& op.normed_a matches Some((weight, eps)) ==> d.push.bias_ptr == weight@.buffer.address
                && d.push.beta == eps && op.epilogue.bias is None
            &&& op.normed_a is None && op.epilogue.bias is None ==> d.push.bias_ptr == 0
        }),
{
    resolved_extents_walk_the_operands(op.call, b, i, j, 0);
    if let Some(bias) = op.epilogue.bias {
        lemma_bias(bias@, dims, b, j);
    }
}

proof fn lemma_bias(bias: TensorView, dims: ResolvedMatmul, b: int, j: int)
    requires
        bias.shape == seq![dims.n] || bias.shape == seq![dims.batch, dims.n],
        0 <= b < dims.batch,
        dims.n > 0,
    ensures
        bias.shape.len() == 1 ==> bias.len() == dims.n && element(bias, seq![j]) == at(bias, j),
        bias.shape.len() == 2 ==> bias.len() == dims.batch * dims.n && element(bias, seq![b, j])
            == at(bias, b * dims.n + j),
        bias.shape.len() == 2 ==> (bias.len() == dims.n <==> dims.batch == 1),
        bias.shape.len() == 1 || bias.shape.len() == 2,
{
    if bias.shape.len() == 1 {
        lemma_rank1(bias.shape, j);
    } else {
        lemma_rank2(bias.shape, b, j);
        assert(dims.batch != 1 ==> dims.batch * dims.n != dims.n) by (nonlinear_arith)
            requires
                dims.n > 0,
                dims.batch > 0,
        ;
        assert(dims.batch == 1 ==> dims.batch * dims.n == dims.n) by (nonlinear_arith);
    }
}

/// A recorded matmul carries the operation's fused store to the shader: the
/// column goes to the element of the destination that the geometry names for
/// the row's position, in the destination's own storage, and is turned by the
/// angle of that position. Without one the result goes to C.
pub proof fn recorded_matmul_carries_the_store(
    ctx: VulkanContext,
    op: MatmulOp,
    dims: ResolvedMatmul,
    slot: usize,
    j: int,
    held: int,
)
    requires
        slot < KERNEL_COUNT,
        resolve_op(op) == Ok::<ResolvedMatmul, ErrorView>(dims),
        dispatch_result(ctx, op, dims, slot) is Ok,
        0 <= j < cols(op.call.c@),
    ensures
        ({
            let d = dispatch_result(ctx, op, dims, slot)->Ok_0;
            let key = d.pipeline.epilogue;
            match op.store {
                MatmulStore::Absent => key.store_mode == 0 && !key.store_f16,
                MatmulStore::Rope { table, desc } => {
                    &&& key.store_mode == 1 && !key.store_f16
                    &&& d.push.store_pos_ptr == desc.pos_addr
                    &&& table@.dtype == DType::F32 ==> store_turn(d.push, j, held) == at(
                        table@,
                        (desc.pos_base + held) * desc.head_dim + (j % desc.head_dim as int) / 2 * 2,
                    )
                },
                MatmulStore::Scatter { dst, desc } => {
                    &&& key.store_mode == 2
                    &&& key.store_f16 <==> dst@.dtype == DType::F16
                    &&& d.push.store_pos_ptr == desc.pos_addr
                    &&& d.push.store_dst_ptr == dst@.buffer.address
                    &&& store_walk(d.push, j, held) == (desc.pos_base + held) * desc.pos_scale + (j
                        / desc.head_dim as int) * desc.stride_head + (j % desc.head_dim as int)
                        * desc.stride_dim
                },
                MatmulStore::RopeScatter { table, dst, desc } => {
                    &&& key.store_mode == 3
                    &&& key.store_f16 <==> dst@.dtype == DType::F16
                    &&& d.push.store_pos_ptr == desc.pos_addr
                    &&& d.push.store_dst_ptr == dst@.buffer.address
                    &&& table@.dtype == DType::F32 ==> store_turn(d.push, j, held) == at(
                        table@,
                        (desc.pos_base + held) * desc.head_dim + (j % desc.head_dim as int) / 2 * 2,
                    )
                    &&& store_walk(d.push, j, held) == (desc.pos_base + held) * desc.pos_scale + (j
                        / desc.head_dim as int) * desc.stride_head + (j % desc.head_dim as int)
                        * desc.stride_dim
                },
            }
        }),
{
    let desc = op.store.desc_of();
    if !(op.store is Absent) {
        let h = desc.head_dim as int;
        let p = desc.pos_base + held;
        let l = (j % h) / 2;
        assert((p * (h / 2) + l) * 2 == p * h + l * 2) by (nonlinear_arith)
            requires
                h == 2 * (h / 2),
        ;
    }
}

/// Whether a descriptor write binds an operand of an operation as a whole: A
/// at 0, B at 1 and C at 2 of the operation's own set.
pub open spec fn binds(write: DescriptorWrite, ops: Seq<MatmulOp>, i: int, binding: u32) -> bool {
    let t = if binding == 0 {
        ops[i].call.a@
    } else if binding == 1 {
        ops[i].call.b@
    } else {
        ops[i].call.c@
    };
    &&& write.set == i
    &&& write.binding == binding
    &&& write.buffer == t.buffer.handle
    &&& write.bytes == t.buffer.bytes
}

/// Whether one of the writes binds an operand of an operation.
pub open spec fn is_bound(writes: Seq<DescriptorWrite>, ops: Seq<MatmulOp>, i: int, binding: u32) -> bool {
    exists|k: int| 0 <= k < writes.len() && #[trigger] binds(writes[k], ops, i, binding)
}

/// Every operation whose kernel binds descriptors has all three operands
/// bound in its set, and nothing else is bound.
pub proof fn descriptors_bind_the_operands(ops: Seq<MatmulOp>, plans: Seq<OpPlan>, upto: int)
    requires
        0 <= upto <= ops.len(),
        upto <= usize::MAX,
    ensures
        forall|i: int, binding: u32|
            0 <= i < upto && binding < 3 && slot_kernel(plans[i].kernel).uses_descriptors
                ==> #[trigger] is_bound(batch_writes(ops, plans, upto), ops, i, binding),
        forall|k: int| #![trigger batch_writes(ops, plans, upto)[k]]
            0 <= k < batch_writes(ops, plans, upto).len() ==> {
                let w = batch_writes(ops, plans, upto)[k];
                &&& w.binding < 3
                &&& w.set < upto
                &&& slot_kernel(plans[w.set as int].kernel).uses_descriptors
                &&& binds(w, ops, w.set as int, w.binding)
            },
    decreases upto,
{
    if upto > 0 {
        descriptors_bind_the_operands(ops, plans, upto - 1);
        let front = batch_writes(ops, plans, upto - 1);
        let all = batch_writes(ops, plans, upto);
        assert forall|i: int, binding: u32|
            0 <= i < upto && binding < 3 && slot_kernel(
                plans[i].kernel,
            ).uses_descriptors implies #[trigger] is_bound(all, ops, i, binding) by {
            if i < upto - 1 {
                assert(is_bound(front, ops, i, binding));
                let k = choose|k: int| 0 <= k < front.len() && #[trigger] binds(
                    front[k],
                    ops,
                    i,
                    binding,
                );
                assert(all[k] == front[k]);
                assert(binds(all[k], ops, i, binding));
            } else {
                let k = front.len() + binding;
                assert(binds(all[k as int], ops, i, binding));
            }
        }
        assert forall|k: int| #![trigger all[k]] 0 <= k < all.len() implies {
            let w = all[k];
            &&& w.binding < 3
            &&& w.set < upto
            &&& slot_kernel(plans[w.set as int].kernel).uses_descriptors
            &&& binds(w, ops, w.set as int, w.binding)
        } by {
            if k < front.len() {
                assert(all[k] == front[k]);
            }
        }
    }
}

} // verus!
