//! What the elementwise dispatches do to the tensors that they are planned
//! for.

use crate::context::VulkanContext;
use crate::dtype::{DType, Scalar};
use crate::error::OpName;
use crate::executor::elementwise::common::{
    BinaryOp, CopyDesc, ElementwiseKernel, Op, RopeDesc, RopeScatterDesc, SoftmaxMask,
};
use crate::executor::elementwise::ops::{
    argmax_plan, binary_plan, copy_plan, copy_stays_inside, gather_plan, norm_plan, pairs_fit,
    rope_fits, rope_plan, rope_scatter_plan, scatter_fits, scatter_stays_inside, softmax_plan,
};
use crate::executor::elementwise::pc::{
    CopyPc, EmbedGatherPc, NormPc, PushBlock, RopePc, RopeScatterPc, SoftmaxPc,
};
use crate::semantics::memory::{
    allocated, at, covers, element, lemma_covers, lemma_rank1, lemma_rank2, lemma_rows,
};
use crate::tensor::{Buffer, TensorView};
use vstd::prelude::*;

verus! {

/// The smaller of two numbers.
pub open spec fn lesser(a: int, b: int) -> int {
    if a <= b {
        a
    } else {
        b
    }
}

/// The columns of a row that the softmax shader takes in.
pub open spec fn softmax_sees(pc: SoftmaxPc, row: int) -> int {
    lesser(
        pc.cols as int,
        if pc.causal == 0 {
            pc.valid_base as int
        } else {
            pc.valid_base + row % pc.rows_per_group as int + 1
        },
    )
}

/// The address at which the softmax shader reads an element.
pub open spec fn softmax_reads(pc: SoftmaxPc, row: int, col: int) -> int {
    pc.in_ptr + 4 * (row * pc.cols + col)
}

/// The address at which the softmax shader writes an element.
pub open spec fn softmax_writes(pc: SoftmaxPc, row: int, col: int) -> int {
    pc.out_ptr + 4 * (row * pc.cols + col)
}

/// A softmax has one workgroup for each row of the last dimension, which
/// reads the row's elements and writes those of the output at the same
/// positions, scaled as asked. A row takes in all columns, those before the
/// valid count, or those up to its own position behind the prefix.
pub proof fn softmax_takes_in_what_the_mask_shows(
    ctx: VulkanContext,
    input: TensorView,
    output: TensorView,
    scale: Scalar,
    mask: SoftmaxMask,
    row: int,
    col: int,
)
    requires
        allocated(input),
        softmax_plan(ctx, input, output, scale, mask) is Ok,
        0 <= row < softmax_plan(ctx, input, output, scale, mask)->Ok_0.groups_x,
        0 <= col < input.shape.last(),
    ensures
        ({
            let d = softmax_plan(ctx, input, output, scale, mask)->Ok_0;
            &&& d.kernel == ElementwiseKernel::Simt(Op::Softmax)
            &&& d.groups_x <= ctx.max_groups_x && d.groups_y == 1 <= ctx.max_groups_y
            &&& ctx.buffer_device_address_enabled
            &&& input.dtype == DType::F32 && output.dtype == DType::F32
            &&& input.buffer.context == ctx.id && output.buffer.context == ctx.id
            &&& input.shape == output.shape
            &&& d.groups_x * input.shape.last() == input.len()
            &&& d.push matches PushBlock::Softmax(pc) && {
                &&& pc.rows == d.groups_x
                &&& pc.cols == input.shape.last()
                &&& pc.scale == scale
                &&& softmax_reads(pc, row, col) == at(input, row * input.shape.last() + col)
                &&& softmax_writes(pc, row, col) == at(output, row * output.shape.last() + col)
                &&& match mask {
                    SoftmaxMask::Full => softmax_sees(pc, row) == input.shape.last(),
                    SoftmaxMask::Prefix { valid } => softmax_sees(pc, row) == lesser(
                        valid as int,
                        input.shape.last() as int,
                    ),
                    SoftmaxMask::Causal { prefix, rows_per_group } => {
                        &&& rows_per_group > 0
                        &&& input.len() as int % (rows_per_group * input.shape.last()) == 0
                        &&& softmax_sees(pc, row) == lesser(
                            prefix + row % rows_per_group as int + 1,
                            input.shape.last() as int,
                        )
                    },
                }
            }
        }),
{
    lemma_rows(input);
    if let SoftmaxMask::Causal { rows_per_group, .. } = mask {
        let d = softmax_plan(ctx, input, output, scale, mask)->Ok_0;
        let rows = d.groups_x as int;
        let g = rows_per_group as int;
        let n = input.shape.last() as int;
        vstd::arithmetic::div_mod::lemma_fundamental_div_mod(rows, g);
        assert(rows * n == (rows / g) * (g * n)) by (nonlinear_arith)
            requires
                rows == g * (rows / g),
        ;
        assert(g * n > 0) by (nonlinear_arith)
            requires
                g > 0,
                n > 0,
        ;
        vstd::arithmetic::div_mod::lemma_mod_multiples_basic(rows / g, g * n);
    }
}

/// A norm has one workgroup for each row of the last dimension, which reads
/// the row, one weight for each of its columns, and for a layer norm one bias,
/// and writes the output at the same positions. The kernel is the one of the
/// norm and of the storage.
pub proof fn norm_walks_rows(
    ctx: VulkanContext,
    op: OpName,
    input: TensorView,
    weight: TensorView,
    bias: Option<TensorView>,
    output: TensorView,
    eps: Scalar,
    row: int,
    col: int,
)
    requires
        allocated(input),
        norm_plan(ctx, op, input, weight, bias, output, eps) is Ok,
        0 <= row < norm_plan(ctx, op, input, weight, bias, output, eps)->Ok_0.groups_x,
        0 <= col < input.shape.last(),
    ensures
        ({
            let d = norm_plan(ctx, op, input, weight, bias, output, eps)->Ok_0;
            &&& d.groups_x <= ctx.max_groups_x && d.groups_y == 1 <= ctx.max_groups_y
            &&& ctx.buffer_device_address_enabled
            &&& input.buffer.context == ctx.id && output.buffer.context == ctx.id
            &&& weight.buffer.context == ctx.id && weight.dtype == DType::F32
            &&& input.dtype == output.dtype && input.shape == output.shape
            &&& weight.len() == input.shape.last()
            &&& d.groups_x * input.shape.last() == input.len()
            &&& d.kernel == ElementwiseKernel::Simt(
                match (bias, input.dtype) {
                    (Some(_), _) => Op::LayerNorm,
                    (None, DType::F32) => Op::RmsNorm,
                    (None, DType::F16) => Op::RmsNormF16,
                },
            )
            &&& bias matches Some(b) ==> b.len() == input.shape.last() && b.dtype == DType::F32
                && b.buffer.context == ctx.id && input.dtype == DType::F32
            &&& d.push matches PushBlock::Norm(pc) && {
                &&& pc.rows == d.groups_x
                &&& pc.cols == input.shape.last()
                &&& pc.eps == eps
                &&& norm_reads(pc, input.dtype, row, col) == at(input, row * input.shape.last() + col)
                &&& norm_writes(pc, input.dtype, row, col) == at(
                    output,
                    row * output.shape.last() + col,
                )
                &&& norm_weighs(pc, col) == at(weight, col)
                &&& match bias {
                    Some(b) => norm_shifts(pc, col) == at(b, col),
                    None => pc.bias_ptr == 0,
                }
            }
        }),
{
    lemma_rows(input);
}

/// Bytes of a stored element.
pub open spec fn width(dtype: DType) -> int {
    match dtype {
        DType::F32 => 4,
        DType::F16 => 2,
    }
}

/// The address at which a norm shader reads an element.
pub open spec fn norm_reads(pc: NormPc, io: DType, row: int, col: int) -> int {
    pc.in_ptr + width(io) * (row * pc.cols + col)
}

/// The address at which a norm shader writes an element.
pub open spec fn norm_writes(pc: NormPc, io: DType, row: int, col: int) -> int {
    pc.out_ptr + width(io) * (row * pc.cols + col)
}

/// The address of the weight of a column.
pub open spec fn norm_weighs(pc: NormPc, col: int) -> int {
    pc.weight_ptr + 4 * col
}

/// The address of the bias of a column.
pub open spec fn norm_shifts(pc: NormPc, col: int) -> int {
    pc.bias_ptr + 4 * col
}

/// The address at which the rotation shader reads a lane of a head of a token.
pub open spec fn rope_reads(pc: RopePc, io: DType, token: int, head: int, lane: int) -> int {
    pc.in_ptr + width(io) * ((token * pc.heads + head) * pc.head_dim + lane)
}

/// The address at which the rotation shader writes a lane.
pub open spec fn rope_writes(pc: RopePc, io: DType, token: int, head: int, lane: int) -> int {
    pc.out_ptr + width(io) * ((token * pc.heads + head) * pc.head_dim + lane)
}

/// The address of the cosine of a lane pair, which its sine follows, where
/// the position cell holds `cell`.
pub open spec fn rope_angle(pc: RopePc, token: int, pair: int, cell: int) -> int {
    pc.table_ptr + 4 * (((pc.pos_base + token + cell) * (pc.rot_dim as int / 2) + pair) * 2)
}

/// A rotation turns each pair of the rotated lanes of every head of every
/// token by the angle of the token's absolute position: it reads and writes
/// every element of the input once, at its own position, and the table where
/// the position's row is. There is a thread for each pair.
pub proof fn rope_turns_by_absolute_position(
    ctx: VulkanContext,
    input: TensorView,
    table: TensorView,
    output: TensorView,
    desc: RopeDesc,
    token: int,
    head: int,
    lane: int,
    pair: int,
    cell: int,
)
    requires
        rope_plan(ctx, input, table, output, desc) is Ok,
        rope_fits(ctx, input, table, output, desc),
        0 <= token,
        0 <= head < desc.heads,
        0 <= lane < desc.head_dim,
        (token * desc.heads + head) * desc.head_dim + lane < input.len(),
        0 <= 2 * pair < desc.rot_dim,
    ensures
        ({
            let d = rope_plan(ctx, input, table, output, desc)->Ok_0;
            &&& d.kernel == ElementwiseKernel::Simt(
                match input.dtype {
                    DType::F32 => Op::Rope,
                    DType::F16 => Op::RopeF16,
                },
            )
            &&& d.groups_x <= ctx.max_groups_x && d.groups_y == 1 <= ctx.max_groups_y
            &&& ctx.buffer_device_address_enabled
            &&& input.dtype == output.dtype && input.shape == output.shape
            &&& table.dtype == DType::F32
            &&& d.push matches PushBlock::Rope(pc) && {
                &&& pc.tokens * desc.heads * desc.head_dim == input.len()
                &&& token < pc.tokens
                &&& covers(d.groups_x as int, 256, pc.tokens * desc.heads * (desc.rot_dim as int / 2))
                &&& pc.rot_dim == desc.rot_dim && desc.rot_dim % 2 == 0 && 2 <= desc.rot_dim
                    <= desc.head_dim
                &&& pc.pos_ptr == desc.pos_addr
                &&& rope_reads(pc, input.dtype, token, head, lane) == at(
                    input,
                    (token * desc.heads + head) * desc.head_dim + lane,
                )
                &&& rope_writes(pc, input.dtype, token, head, lane) == at(
                    output,
                    (token * desc.heads + head) * desc.head_dim + lane,
                )
                &&& rope_angle(pc, token, pair, cell) == at(
                    table,
                    (desc.pos_base + token + cell) * desc.rot_dim + 2 * pair,
                )
                &&& (desc.pos_base + token) * desc.rot_dim + 2 * pair + 1 < table.len()
            }
        }),
{
    let d = rope_plan(ctx, input, table, output, desc)->Ok_0;
    let tokens = d.push->Rope_0.tokens;
    lemma_tokens(input, table, desc, tokens, token, head, lane, pair);
    assert(pairs_fit(tokens, desc));
    lemma_covers(tokens * desc.heads * (desc.rot_dim as int / 2), 256);
    lemma_turn(desc, token, pair, cell);
}

/// The tokens of an input fill it, and the table reaches the last of them.
proof fn lemma_tokens(
    input: TensorView,
    table: TensorView,
    desc: RopeDesc,
    tokens: u32,
    token: int,
    head: int,
    lane: int,
    pair: int,
)
    requires
        desc.rot_dim % 2 == 0,
        desc.heads * desc.head_dim != 0,
        input.len() as int % (desc.heads * desc.head_dim) == 0,
        tokens == input.len() as int / (desc.heads * desc.head_dim),
        table.len() >= (desc.pos_base + tokens) * desc.rot_dim,
        0 <= token,
        0 <= head < desc.heads,
        0 <= lane < desc.head_dim,
        (token * desc.heads + head) * desc.head_dim + lane < input.len(),
        0 <= 2 * pair < desc.rot_dim,
    ensures
        tokens * desc.heads * desc.head_dim == input.len(),
        token < tokens,
        (desc.pos_base + token) * desc.rot_dim + 2 * pair + 1 < table.len(),
        tokens * desc.heads * (desc.rot_dim as int / 2) >= 0,
{
    let v = desc.heads * desc.head_dim;
    let n = input.len() as int;
    let t = tokens as int;
    vstd::arithmetic::div_mod::lemma_fundamental_div_mod(n, v);
    assert(t * desc.heads * desc.head_dim == v * t) by (nonlinear_arith)
        requires
            v == desc.heads * desc.head_dim,
    ;
    assert(token < t) by (nonlinear_arith)
        requires
            (token * desc.heads + head) * desc.head_dim + lane < v * t,
            v == desc.heads * desc.head_dim,
            0 <= head,
            0 <= lane,
            desc.heads > 0,
            desc.head_dim > 0,
    ;
    let r = desc.rot_dim as int;
    let p = desc.pos_base as int;
    assert((p + token) * r + r <= (p + t) * r) by (nonlinear_arith)
        requires
            token < t,
            r >= 0,
            p >= 0,
            token >= 0,
    ;
    assert(t * desc.heads * (r / 2) >= 0) by (nonlinear_arith)
        requires
            t >= 0,
            desc.heads >= 0,
            r >= 0,
    ;
}

proof fn lemma_turn(desc: RopeDesc, token: int, pair: int, cell: int)
    requires
        desc.rot_dim % 2 == 0,
    ensures
        ((desc.pos_base + token + cell) * (desc.rot_dim as int / 2) + pair) * 2 == (desc.pos_base
            + token + cell) * desc.rot_dim + 2 * pair,
{
    let p = desc.pos_base + token + cell;
    let half = desc.rot_dim as int / 2;
    assert(desc.rot_dim == 2 * half);
    assert((p * half + pair) * 2 == p * (2 * half) + 2 * pair) by (nonlinear_arith);
}

/// The address at which the scattering rotation reads a lane.
pub open spec fn scatter_reads(pc: RopeScatterPc, token: int, head: int, lane: int) -> int {
    pc.in_ptr + 4 * ((token * pc.heads + head) * pc.head_dim + lane)
}

/// The destination element of a lane, where the position cell holds `cell`.
pub open spec fn scatter_target(pc: RopeScatterPc, token: int, head: int, lane: int, cell: int) -> int {
    pc.dst_offset + token * pc.dst_strides[0] + head * pc.dst_strides[1] + lane
        * pc.dst_strides[2] + cell * pc.pos_scale
}

/// The address of the cosine of a lane pair of the scattering rotation.
pub open spec fn scatter_angle(pc: RopeScatterPc, token: int, pair: int, cell: int) -> int {
    pc.table_ptr + 4 * (((pc.pos_base + token + cell) * (pc.rot_dim as int / 2) + pair) * 2)
}

/// A scattering rotation reads every element of the input at its own
/// position, turns it by its token's absolute position, and writes it to the
/// element of the destination that the strides name, advanced by the position
/// cell. The destination is another buffer and is written in its own storage.
pub proof fn rope_scatter_follows_its_strides(
    ctx: VulkanContext,
    input: TensorView,
    table: TensorView,
    dst: TensorView,
    desc: RopeDesc,
    scatter: RopeScatterDesc,
    token: int,
    head: int,
    lane: int,
    pair: int,
    cell: int,
)
    requires
        rope_scatter_plan(ctx, input, table, dst, desc, scatter) is Ok,
        scatter_fits(ctx, input, table, dst, desc, scatter),
        0 <= token,
        0 <= head < desc.heads,
        0 <= lane < desc.head_dim,
        (token * desc.heads + head) * desc.head_dim + lane < input.len(),
        0 <= 2 * pair < desc.rot_dim,
    ensures
        ({
            let d = rope_scatter_plan(ctx, input, table, dst, desc, scatter)->Ok_0;
            let target = scatter.dst_offset + token * scatter.dst_strides[0] + head
                * scatter.dst_strides[1] + lane * scatter.dst_strides[2];
            &&& d.kernel == ElementwiseKernel::Simt(
                match dst.dtype {
                    DType::F32 => Op::RopeScatter,
                    DType::F16 => Op::RopeScatterToF16,
                },
            )
            &&& d.groups_x <= ctx.max_groups_x && d.groups_y == 1 <= ctx.max_groups_y
            &&& ctx.buffer_device_address_enabled
            &&& input.dtype == DType::F32 && table.dtype == DType::F32
            &&& input.buffer.handle != dst.buffer.handle
            &&& 0 <= target < dst.len()
            &&& d.push matches PushBlock::RopeScatter(pc) && {
                &&& pc.tokens * desc.heads * desc.head_dim == input.len()
                &&& token < pc.tokens
                &&& covers(d.groups_x as int, 256, pc.tokens * desc.heads * (desc.rot_dim as int / 2))
                &&& pc.rot_dim == desc.rot_dim && desc.rot_dim % 2 == 0 && 2 <= desc.rot_dim
                    <= desc.head_dim
                &&& pc.pos_ptr == desc.pos_addr
                &&& pc.dst_ptr == dst.buffer.address
                &&& scatter_reads(pc, token, head, lane) == at(
                    input,
                    (token * desc.heads + head) * desc.head_dim + lane,
                )
                &&& scatter_target(pc, token, head, lane, cell) == target + cell * scatter.pos_scale
                &&& scatter_angle(pc, token, pair, cell) == at(
                    table,
                    (desc.pos_base + token + cell) * desc.rot_dim + 2 * pair,
                )
                &&& (desc.pos_base + token) * desc.rot_dim + 2 * pair + 1 < table.len()
            }
        }),
{
    let d = rope_scatter_plan(ctx, input, table, dst, desc, scatter)->Ok_0;
    let tokens = d.push->RopeScatter_0.tokens;
    lemma_tokens(input, table, desc, tokens, token, head, lane, pair);
    assert(pairs_fit(tokens, desc));
    lemma_covers(tokens * desc.heads * (desc.rot_dim as int / 2), 256);
    lemma_turn(desc, token, pair, cell);
    scatter_stays_inside(ctx, input, table, dst, desc, scatter, token, head, lane);
}

/// The source element of an index of a copy.
pub open spec fn copy_source(pc: CopyPc, x: int, y: int, z: int) -> int {
    pc.src_offset + x * pc.src_strides[0] + y * pc.src_strides[1] + z * pc.src_strides[2]
}

/// The destination element of an index of a copy, where the position cell
/// holds `cell`.
pub open spec fn copy_target(pc: CopyPc, x: int, y: int, z: int, cell: int) -> int {
    pc.dst_offset + x * pc.dst_strides[0] + y * pc.dst_strides[1] + z * pc.dst_strides[2] + cell
        * pc.pos_scale
}

/// A strided copy takes, for every index of the extent, the source element
/// that the source strides name to the destination element that the
/// destination strides name, advanced by the position cell. Both exist, in
/// different buffers, and the kernel converts from the one storage to the
/// other.
pub proof fn copy_follows_its_strides(
    ctx: VulkanContext,
    src: TensorView,
    dst: TensorView,
    desc: CopyDesc,
    x: int,
    y: int,
    z: int,
    cell: int,
)
    requires
        copy_plan(ctx, src, dst, desc) is Ok,
        0 <= x < desc.extent[0],
        0 <= y < desc.extent[1],
        0 <= z < desc.extent[2],
    ensures
        ({
            let d = copy_plan(ctx, src, dst, desc)->Ok_0;
            let from = desc.src_offset + x * desc.src_strides[0] + y * desc.src_strides[1] + z
                * desc.src_strides[2];
            let to = desc.dst_offset + x * desc.dst_strides[0] + y * desc.dst_strides[1] + z
                * desc.dst_strides[2];
            &&& d.kernel == ElementwiseKernel::Simt(
                match (src.dtype, dst.dtype) {
                    (DType::F32, DType::F32) => Op::Copy,
                    (DType::F32, DType::F16) => Op::CopyToF16,
                    (DType::F16, DType::F16) => Op::CopyF16,
                    (DType::F16, DType::F32) => Op::CopyF16ToF32,
                },
            )
            &&& d.groups_x <= ctx.max_groups_x && d.groups_y == 1 <= ctx.max_groups_y
            &&& ctx.buffer_device_address_enabled
            &&& src.buffer.handle != dst.buffer.handle
            &&& src.buffer.context == ctx.id && dst.buffer.context == ctx.id
            &&& 0 <= from < src.len() && 0 <= to < dst.len()
            &&& covers(
                d.groups_x as int,
                256,
                desc.extent[0] * desc.extent[1] * desc.extent[2],
            )
            &&& d.push matches PushBlock::Copy(pc) && {
                &&& pc.extent == desc.extent
                &&& pc.src_ptr == src.buffer.address
                &&& pc.dst_ptr == dst.buffer.address
                &&& pc.pos_ptr == desc.pos_addr
                &&& copy_source(pc, x, y, z) == from
                &&& copy_target(pc, x, y, z, cell) == to + cell * desc.pos_scale
            }
        }),
{
    copy_stays_inside(ctx, src, dst, desc, x, y, z);
    let total = desc.extent[0] * desc.extent[1] * desc.extent[2];
    assert(total >= 0) by (nonlinear_arith)
        requires
            total == desc.extent[0] * desc.extent[1] * desc.extent[2],
            desc.extent[0] >= 0,
            desc.extent[1] >= 0,
            desc.extent[2] >= 0,
    ;
    lemma_covers(total, 256);
}

/// A binary combination runs over every element of three tensors that have
/// equally many and store them alike, four to a thread. It adds the scaled
/// second operand or gates it by the first, as asked.
pub proof fn binary_combines_every_element(
    ctx: VulkanContext,
    a: TensorView,
    b: TensorView,
    out: TensorView,
    op: BinaryOp,
)
    requires
        binary_plan(ctx, a, b, out, op) is Ok,
    ensures
        ({
            let d = binary_plan(ctx, a, b, out, op)->Ok_0;
            &&& d.kernel == ElementwiseKernel::Simt(
                match out.dtype {
                    DType::F32 => Op::Binary,
                    DType::F16 => Op::BinaryF16,
                },
            )
            &&& d.groups_x <= ctx.max_groups_x && d.groups_y == 1 <= ctx.max_groups_y
            &&& ctx.buffer_device_address_enabled
            &&& a.dtype == out.dtype && b.dtype == out.dtype
            &&& a.len() == out.len() && b.len() == out.len()
            &&& a.buffer.context == ctx.id && b.buffer.context == ctx.id && out.buffer.context
                == ctx.id
            &&& covers(d.groups_x as int, 1024, out.len() as int)
            &&& d.push matches PushBlock::Binary(pc) && {
                &&& pc.n == out.len()
                &&& pc.a_ptr == a.buffer.address
                &&& pc.b_ptr == b.buffer.address
                &&& pc.out_ptr == out.buffer.address
                &&& match op {
                    BinaryOp::AddScaled { beta } => pc.mode == 0 && pc.beta == beta,
                    BinaryOp::SiluMul => pc.mode == 1,
                }
            }
        }),
{
    lemma_covers(out.len() as int, 1024);
}

/// An argmax is one workgroup over every element of its input, and answers
/// into its cell.
pub proof fn argmax_sees_every_element(ctx: VulkanContext, input: TensorView, result: Buffer)
    requires
        argmax_plan(ctx, input, result) is Ok,
    ensures
        ({
            let d = argmax_plan(ctx, input, result)->Ok_0;
            &&& d.kernel == ElementwiseKernel::Simt(Op::Argmax)
            &&& d.groups_x == 1 && d.groups_y == 1
            &&& ctx.buffer_device_address_enabled
            &&& input.dtype == DType::F32
            &&& input.buffer.context == ctx.id && result.context == ctx.id
            &&& d.push matches PushBlock::Argmax(pc) && {
                &&& pc.n == input.len()
                &&& pc.in_ptr == input.buffer.address
                &&& pc.result_ptr == result.address
            }
        }),
{
}

/// The address at which the gather shader reads a column of a token's row.
pub open spec fn gather_reads(pc: EmbedGatherPc, id: int, col: int) -> int {
    pc.table_ptr + (if pc.table_f16 == 0 { 4int } else { 2 }) * (id * pc.embd + col)
}

/// The address at which the gather shader writes a column of a row.
pub open spec fn gather_writes(pc: EmbedGatherPc, row: int, col: int) -> int {
    pc.out_ptr + (if pc.out_f16 == 0 { 4int } else { 2 }) * (row * pc.embd + col)
}

/// An embedding gather writes, for every row of its output, the row of the
/// table that the token at the same place of the list names: it reads the
/// table's elements and writes the output's in the storage that each has.
/// The list holds a token for every row.
pub proof fn gather_copies_named_rows(
    ctx: VulkanContext,
    tokens: Buffer,
    table: TensorView,
    out: TensorView,
    row: int,
    id: int,
    col: int,
)
    requires
        allocated(table),
        gather_plan(ctx, tokens, table, out) is Ok,
        0 <= row < gather_plan(ctx, tokens, table, out)->Ok_0.groups_y,
        0 <= id < table.shape[0],
        0 <= col < table.shape[1],
    ensures
        ({
            let d = gather_plan(ctx, tokens, table, out)->Ok_0;
            &&& d.kernel == ElementwiseKernel::Simt(Op::EmbedGather)
            &&& d.groups_x <= ctx.max_groups_x && d.groups_y <= ctx.max_groups_y
            &&& ctx.buffer_device_address_enabled
            &&& table.buffer.context == ctx.id && out.buffer.context == ctx.id && tokens.context
                == ctx.id
            &&& table.shape.len() == 2
            &&& d.groups_y * table.shape[1] == out.len()
            &&& 4 * d.groups_y <= tokens.bytes
            &&& covers(d.groups_x as int, 1024, table.shape[1] as int)
            &&& d.push matches PushBlock::EmbedGather(pc) && {
                &&& pc.token_ptr == tokens.address
                &&& pc.n_tokens == d.groups_y
                &&& pc.vocab == table.shape[0]
                &&& pc.embd == table.shape[1]
                &&& gather_reads(pc, id, col) == element(table, seq![id, col])
                &&& gather_writes(pc, row, col) == at(out, row * table.shape[1] + col)
                &&& out.shape.len() == 1 ==> out.shape[0] == table.shape[1] && row == 0
                &&& out.shape.len() != 1 ==> out.shape.len() == 2 && gather_writes(pc, row, col)
                    == element(out, seq![row, col])
            }
        }),
{
    lemma_rank2(table.shape, id, col);
    lemma_covers(table.shape[1] as int, 1024);
    if out.shape.len() == 1 {
        lemma_rank1(out.shape, col);
        assert(0 * table.shape[1] == 0);
    } else {
        lemma_rank2(out.shape, row, col);
    }
}

} // verus!
