//! What the attention dispatches do to queries, caches and outputs.

use crate::context::VulkanContext;
use crate::dtype::DType;
use crate::executor::elementwise::attn::{attn_fits, attn_plan, AttnOperands};
use crate::executor::elementwise::common::{
    AttnDecodeDesc, Cm2Op, ElementwiseKernel, FlashAttentionDesc, Op, PrefillQkvPackDesc,
};
use crate::executor::elementwise::flash::{flash_fits, flash_plan, pack_fits, pack_plan};
use crate::executor::elementwise::pc::{
    AttnCombinePc, AttnDecodePc, FlashPc, PrefillQkvPackPc, PushBlock,
};
use crate::semantics::elementwise::{lesser, width};
use crate::semantics::memory::{allocated, at, covers, element, lemma_covers, lemma_rank2, lemma_rank3};
use crate::tensor::TensorView;
use vstd::prelude::*;

verus! {

/// What a flash-attention kernel is compiled for: the storage of queries and
/// output, the storage of the caches, the head dimension, and the query rows
/// of a workgroup.
pub open spec fn flash_compiled(kernel: ElementwiseKernel) -> Option<(DType, DType, int, int)> {
    match kernel {
        ElementwiseKernel::Simt(Op::FlashDh64) => Some((DType::F32, DType::F32, 64int, 128int)),
        ElementwiseKernel::Simt(Op::FlashDh128) => Some((DType::F32, DType::F32, 128, 128)),
        ElementwiseKernel::Simt(Op::FlashKv16Dh64) => Some((DType::F32, DType::F16, 64, 128)),
        ElementwiseKernel::Simt(Op::FlashKv16Dh128) => Some((DType::F32, DType::F16, 128, 128)),
        ElementwiseKernel::Cm2(Cm2Op::FlashDh64) => Some((DType::F32, DType::F32, 64, 64)),
        ElementwiseKernel::Cm2(Cm2Op::FlashDh128) => Some((DType::F32, DType::F32, 128, 64)),
        ElementwiseKernel::Cm2(Cm2Op::FlashKv16Dh64) => Some((DType::F32, DType::F16, 64, 64)),
        ElementwiseKernel::Cm2(Cm2Op::FlashKv16Dh128) => Some((DType::F32, DType::F16, 128, 64)),
        ElementwiseKernel::Cm2(Cm2Op::FlashKv16Io16Dh64) => Some((DType::F16, DType::F16, 64, 64)),
        _ => None,
    }
}

/// The positions that a query row of a flash attention attends to: those
/// below this number.
pub open spec fn flash_attends(pc: FlashPc, row: int) -> int {
    lesser(pc.kv_len as int, pc.pos_base + row + 1)
}

/// The cache head that serves a query head.
pub open spec fn flash_cache_head(pc: FlashPc, head: int) -> int {
    head / pc.group_size as int
}

/// The address at which a query lane is read.
pub open spec fn flash_query(pc: FlashPc, io: DType, head: int, row: int, lane: int) -> int {
    pc.q_ptr + width(io) * (head * pc.q_head_stride + row * pc.q_row_stride + lane)
}

/// The address at which an output lane is written.
pub open spec fn flash_output(pc: FlashPc, io: DType, head: int, row: int, lane: int) -> int {
    pc.out_ptr + width(io) * (head * pc.o_head_stride + row * pc.o_row_stride + lane)
}

/// The address at which a lane of the key of a position is read.
pub open spec fn flash_key(pc: FlashPc, kv: DType, dh: int, head: int, lane: int, pos: int) -> int {
    pc.kt_ptr + width(kv) * ((flash_cache_head(pc, head) * dh + lane) * pc.t_max + pos)
}

/// The address at which a lane of the value of a position is read.
pub open spec fn flash_value(pc: FlashPc, kv: DType, dh: int, head: int, lane: int, pos: int) -> int {
    pc.v_ptr + width(kv) * ((flash_cache_head(pc, head) * pc.t_max + pos) * dh + lane)
}

/// The query heads of an attention.
pub open spec fn query_heads(q: TensorView, desc: FlashAttentionDesc) -> int {
    match desc.token_major_heads {
        Some(heads) => heads as int,
        None => q.shape[0] as int,
    }
}

/// The query rows of an attention.
pub open spec fn query_rows(q: TensorView, desc: FlashAttentionDesc) -> int {
    match desc.token_major_heads {
        Some(_) => q.shape[0] as int,
        None => q.shape[1] as int,
    }
}

/// The address of a lane of a row of a head: in `[H, T, dh]`, or token-major
/// in `[T, H, dh]`.
pub open spec fn lane_of(t: TensorView, token_major: bool, heads: int, rows: int, dh: int, head: int, row: int, lane: int) -> int {
    at(
        t,
        if token_major {
            (row * heads + head) * dh + lane
        } else {
            (head * rows + row) * dh + lane
        },
    )
}

/// A flash attention reads every lane of every query row and writes the
/// output's, each in the layout that its tensor has, and reads keys and values
/// of the cache head that serves the query head: as many query heads to each.
/// Row `i` attends to the positions below `min(kv_len, pos_base + i + 1)`, all
/// of which the caches hold. There is a column of workgroups for each head,
/// and the kernel is one that is compiled for the storage and the head
/// dimension at hand.
pub proof fn flash_attends_causally(
    ctx: VulkanContext,
    q: TensorView,
    kt: TensorView,
    v: TensorView,
    out: TensorView,
    desc: FlashAttentionDesc,
    force_simt: bool,
    head: int,
    row: int,
    lane: int,
    pos: int,
)
    requires
        allocated(q),
        allocated(kt),
        allocated(v),
        flash_fits(ctx, q, kt, v, out, desc),
        flash_plan(ctx, q, kt, v, out, desc, force_simt) is Ok,
        0 <= head < query_heads(q, desc),
        0 <= row < query_rows(q, desc),
        0 <= lane < kt.shape[1],
        0 <= pos < lesser(desc.kv_len as int, desc.pos_base + row + 1),
    ensures
        ({
            let d = flash_plan(ctx, q, kt, v, out, desc, force_simt)->Ok_0;
            let dh = kt.shape[1] as int;
            let heads = query_heads(q, desc);
            let rows = query_rows(q, desc);
            let cache = head / (heads / kt.shape[0] as int);
            &&& kt.shape.len() == 3 && v.shape.len() == 3
            &&& v.shape[0] == kt.shape[0] && v.shape[1] == kt.shape[2] && v.shape[2] == kt.shape[1]
            &&& heads % kt.shape[0] as int == 0
            &&& q.len() == heads * rows * dh && out.len() == q.len()
            &&& q.dtype == out.dtype && kt.dtype == v.dtype
            &&& pos < desc.kv_len <= kt.shape[2]
            &&& 0 <= cache < kt.shape[0]
            &&& ctx.buffer_device_address_enabled
            &&& d.groups_x <= ctx.max_groups_x && d.groups_y <= ctx.max_groups_y
            &&& d.groups_y == heads
            &&& flash_compiled(d.kernel) matches Some((io, kv, lanes, per_group)) && {
                &&& io == q.dtype && kv == kt.dtype && lanes == dh
                &&& covers(d.groups_x as int, per_group, rows)
            }
            &&& d.kernel is Cm2 || d.kernel is Simt
            &&& d.kernel is Cm2 <==> ctx.coopmat2_enabled && !force_simt
            &&& d.push matches PushBlock::Flash(pc) && {
                &&& pc.t_q == rows
                &&& pc.scale == desc.scale
                &&& pc.group_size * kt.shape[0] == heads
                &&& flash_attends(pc, row) == lesser(desc.kv_len as int, desc.pos_base + row + 1)
                &&& flash_query(pc, q.dtype, head, row, lane) == lane_of(
                    q,
                    desc.token_major_heads is Some,
                    heads,
                    rows,
                    dh,
                    head,
                    row,
                    lane,
                )
                &&& flash_output(pc, q.dtype, head, row, lane) == lane_of(
                    out,
                    desc.token_major_heads is Some || desc.out_token_major_heads is Some,
                    heads,
                    rows,
                    dh,
                    head,
                    row,
                    lane,
                )
                &&& flash_key(pc, kt.dtype, dh, head, lane, pos) == element(
                    kt,
                    seq![cache, lane, pos],
                )
                &&& flash_value(pc, kt.dtype, dh, head, lane, pos) == element(
                    v,
                    seq![cache, pos, lane],
                )
            }
        }),
{
    let d = flash_plan(ctx, q, kt, v, out, desc, force_simt)->Ok_0;
    let dh = kt.shape[1] as int;
    let heads = query_heads(q, desc);
    let rows = query_rows(q, desc);
    let kv_heads = kt.shape[0] as int;
    let group = heads / kv_heads;
    assert(kt.shape[0] != 0 && kt.shape[1] != 0);
    vstd::arithmetic::div_mod::lemma_fundamental_div_mod(heads, kv_heads);
    assert(kv_heads * group == group * kv_heads) by (nonlinear_arith);
    assert(group > 0) by (nonlinear_arith)
        requires
            heads == kv_heads * group,
            heads > 0,
            kv_heads > 0,
    ;
    let cache = head / group;
    vstd::arithmetic::div_mod::lemma_fundamental_div_mod(head, group);
    vstd::arithmetic::div_mod::lemma_mod_bound(head, group);
    vstd::arithmetic::div_mod::lemma_div_pos_is_pos(head, group);
    assert(cache < kv_heads) by (nonlinear_arith)
        requires
            head < heads,
            heads == kv_heads * group,
            head == group * cache + head % group,
            head % group >= 0,
            group > 0,
    ;
    lemma_rank3(kt.shape, cache, lane, pos);
    lemma_rank3(v.shape, cache, pos, lane);
    lemma_covers(rows, 64);
    lemma_covers(rows, 128);
    assert(head * dh + row * (heads * dh) + lane == (row * heads + head) * dh + lane)
        by (nonlinear_arith);
    assert(head * (rows * dh) + row * dh + lane == (head * rows + row) * dh + lane)
        by (nonlinear_arith);
    assert(rows * heads * dh == heads * rows * dh) by (nonlinear_arith);
    if desc.token_major_heads is None {
        lemma_rank3(q.shape, 0, 0, 0);
    }
}

/// The address at which the pack reads a lane of a query head of a token.
pub open spec fn pack_query(pc: PrefillQkvPackPc, token: int, head: int, lane: int) -> int {
    pc.qkv_ptr + 2 * (token * pc.qkv_stride + head * pc.head_dim + lane)
}

/// The address at which the pack reads a lane of a key head of a token.
pub open spec fn pack_key(pc: PrefillQkvPackPc, token: int, head: int, lane: int) -> int {
    pc.qkv_ptr + 2 * (token * pc.qkv_stride + pc.k_offset + head * pc.head_dim + lane)
}

/// The address at which the pack reads a lane of a value head of a token.
pub open spec fn pack_value(pc: PrefillQkvPackPc, token: int, head: int, lane: int) -> int {
    pc.qkv_ptr + 2 * (token * pc.qkv_stride + pc.v_offset + head * pc.head_dim + lane)
}

/// The address at which the pack writes a query lane.
pub open spec fn packed_query(pc: PrefillQkvPackPc, token: int, head: int, lane: int) -> int {
    pc.q_ptr + 2 * ((head * pc.tokens + token) * pc.head_dim + lane)
}

/// The address at which the pack writes a key lane.
pub open spec fn packed_key(pc: PrefillQkvPackPc, token: int, head: int, lane: int) -> int {
    pc.kt_ptr + 2 * ((head * pc.head_dim + lane) * pc.t_max + (pc.pos_base + token))
}

/// The address at which the pack writes a value lane.
pub open spec fn packed_value(pc: PrefillQkvPackPc, token: int, head: int, lane: int) -> int {
    pc.v_ptr + 2 * ((head * pc.t_max + (pc.pos_base + token)) * pc.head_dim + lane)
}

/// The address of the cosine of a lane pair of a token.
pub open spec fn pack_angle(pc: PrefillQkvPackPc, token: int, pair: int) -> int {
    pc.table_ptr + 4 * (((pc.pos_base + token) * (pc.rot_dim as int / 2) + pair) * 2)
}

/// A prefill pack takes every token's row apart into query heads, key heads
/// and value heads, in this order and without a gap, and writes each lane to
/// its place: queries to `[H, T, dh]`, keys to `[H_kv, dh, T_max]` and values
/// to `[H_kv, T_max, dh]`, both at the token's absolute position, whose row of
/// the table the rotation reads.
pub proof fn pack_takes_rows_apart(
    ctx: VulkanContext,
    qkv: TensorView,
    table: TensorView,
    q: TensorView,
    kt: TensorView,
    v: TensorView,
    desc: PrefillQkvPackDesc,
    token: int,
    head: int,
    kv_head: int,
    lane: int,
    pair: int,
)
    requires
        pack_fits(ctx, qkv, table, q, kt, v, desc),
        pack_plan(ctx, qkv, table, q, kt, v, desc) is Ok,
        0 <= token < qkv.shape[0],
        0 <= head < desc.heads,
        0 <= kv_head < desc.kv_heads,
        0 <= lane < desc.head_dim,
        0 <= 2 * pair < desc.rot_dim,
    ensures
        ({
            let d = pack_plan(ctx, qkv, table, q, kt, v, desc)->Ok_0;
            let tokens = qkv.shape[0] as int;
            let dh = desc.head_dim as int;
            let queries = desc.heads * dh;
            let keys = desc.kv_heads * dh;
            let place = desc.pos_base + token;
            let threads = tokens * desc.heads * (desc.rot_dim as int / 2) + tokens * desc.kv_heads
                * (desc.rot_dim as int / 2) + tokens * desc.kv_heads * (dh / 4);
            &&& d.kernel == ElementwiseKernel::Simt(Op::PrefillQkvPack)
            &&& d.groups_x <= ctx.max_groups_x && d.groups_y == 1 <= ctx.max_groups_y
            &&& ctx.buffer_device_address_enabled
            &&& qkv.dtype == DType::F16 && q.dtype == DType::F16 && kt.dtype == DType::F16
                && v.dtype == DType::F16 && table.dtype == DType::F32
            &&& qkv.shape.len() == 2 && qkv.shape[1] == queries + keys + keys
            &&& q.shape == seq![desc.heads, qkv.shape[0], desc.head_dim]
            &&& kt.shape == seq![desc.kv_heads, desc.head_dim, kt.shape[2]]
            &&& v.shape == seq![desc.kv_heads, kt.shape[2], desc.head_dim]
            &&& desc.pos_base + tokens <= u32::MAX ==> place < kt.shape[2]
            &&& desc.rot_dim % 2 == 0 && desc.rot_dim <= dh && dh % 4 == 0
            &&& place * desc.rot_dim + 2 * pair + 1 < table.len()
            &&& threads <= u32::MAX ==> covers(d.groups_x as int, 256, threads)
            &&& d.push matches PushBlock::PrefillQkvPack(pc) && {
                &&& pc.tokens == tokens && pc.heads == desc.heads && pc.kv_heads == desc.kv_heads
                &&& pc.head_dim == dh && pc.rot_dim == desc.rot_dim
                &&& pack_query(pc, token, head, lane) == element(qkv, seq![token, head * dh + lane])
                &&& pack_key(pc, token, kv_head, lane) == element(
                    qkv,
                    seq![token, queries + kv_head * dh + lane],
                )
                &&& pack_value(pc, token, kv_head, lane) == element(
                    qkv,
                    seq![token, queries + keys + kv_head * dh + lane],
                )
                &&& packed_query(pc, token, head, lane) == element(q, seq![head, token, lane])
                &&& packed_key(pc, token, kv_head, lane) == element(kt, seq![kv_head, lane, place])
                &&& packed_value(pc, token, kv_head, lane) == element(v, seq![kv_head, place, lane])
                &&& pack_angle(pc, token, pair) == at(table, place * desc.rot_dim + 2 * pair)
            }
        }),
{
    let d = pack_plan(ctx, qkv, table, q, kt, v, desc)->Ok_0;
    let tokens = qkv.shape[0] as int;
    let dh = desc.head_dim as int;
    let r = desc.rot_dim as int;
    let queries = desc.heads * dh;
    let keys = desc.kv_heads * dh;
    let place = desc.pos_base + token;
    assert(queries >= 0 && keys >= 0) by (nonlinear_arith)
        requires
            queries == desc.heads * dh,
            keys == desc.kv_heads * dh,
            dh >= 0,
    ;
    lemma_rank2(qkv.shape, token, head * dh + lane);
    lemma_rank2(qkv.shape, token, queries + kv_head * dh + lane);
    lemma_rank2(qkv.shape, token, queries + keys + kv_head * dh + lane);
    lemma_rank3(q.shape, head, token, lane);
    lemma_rank3(kt.shape, kv_head, lane, place);
    lemma_rank3(v.shape, kv_head, place, lane);
    assert(kt.shape =~= seq![desc.kv_heads, desc.head_dim, kt.shape[2]]);
    assert(v.shape =~= seq![desc.kv_heads, kt.shape[2], desc.head_dim]);
    assert((place * (r / 2) + pair) * 2 == place * r + 2 * pair) by (nonlinear_arith)
        requires
            r == 2 * (r / 2),
    ;
    assert(place * r + r <= (desc.pos_base + tokens) * r) by (nonlinear_arith)
        requires
            place + 1 <= desc.pos_base + tokens,
            r >= 0,
    ;
    let threads = tokens * desc.heads * (r / 2) + tokens * desc.kv_heads * (r / 2) + tokens
        * desc.kv_heads * (dh / 4);
    assert(threads >= 0) by (nonlinear_arith)
        requires
            threads == tokens * desc.heads * (r / 2) + tokens * desc.kv_heads * (r / 2) + tokens
                * desc.kv_heads * (dh / 4),
            tokens >= 0,
            r >= 0,
            dh >= 0,
            desc.heads >= 0,
            desc.kv_heads >= 0,
    ;
    lemma_covers(threads, 256);
}

/// The address at which a query lane of decode attention is read.
pub open spec fn decode_query(pc: AttnDecodePc, dh: int, cache_head: int, member: int, lane: int) -> int {
    pc.q_ptr + 4 * ((cache_head * pc.group + member) * dh + lane)
}

/// The address at which a lane of the key of a position is read.
pub open spec fn decode_key(pc: AttnDecodePc, kv: DType, dh: int, cache_head: int, lane: int, pos: int) -> int {
    pc.kt_ptr + width(kv) * ((cache_head * dh + lane) * pc.t_max + pos)
}

/// The address at which a lane of the value of a position is read.
pub open spec fn decode_value(pc: AttnDecodePc, kv: DType, dh: int, cache_head: int, lane: int, pos: int) -> int {
    pc.v_ptr + width(kv) * ((cache_head * pc.t_max + pos) * dh + lane)
}

/// The address at which an output lane is written.
pub open spec fn decode_output(pc: AttnCombinePc, query_row: int, lane: int) -> int {
    pc.out_ptr + 4 * (query_row * pc.dh + lane)
}

/// A decode attention divides its query rows evenly among the cache heads and
/// reads every lane of them, and the keys and values of the cache head that
/// serves them. The second stage merges what the first one left in scratch,
/// which holds a row and two sums for each chunk and query row, and writes
/// every lane of the output. The chunks take about thirty-two positions each;
/// where the length is only known at execution, there are as many as there
/// may be.
pub proof fn decode_attends_to_the_cache(
    ctx: VulkanContext,
    o: AttnOperands,
    desc: AttnDecodeDesc,
    cache_head: int,
    member: int,
    lane: int,
    pos: int,
)
    requires
        allocated(o.kt),
        attn_fits(ctx, o, desc),
        attn_plan(ctx, o, desc) is Ok,
        0 <= cache_head < o.kt.shape[0],
        0 <= member,
        0 <= lane < o.kt.shape[1],
        ((cache_head * (o.q.len() as int / (o.kt.shape[0] * o.kt.shape[1]))) + member)
            * o.kt.shape[1] + lane < o.q.len(),
        0 <= pos < desc.kv_len,
    ensures
        ({
            let (first, second) = attn_plan(ctx, o, desc)->Ok_0;
            let dh = o.kt.shape[1] as int;
            let kv_heads = o.kt.shape[0] as int;
            &&& o.kt.shape.len() == 3 && dh == 64
            &&& o.v.shape == seq![o.kt.shape[0], o.kt.shape[2], o.kt.shape[1]]
            &&& o.kt.dtype == o.v.dtype && o.q.dtype == DType::F32 && o.out.dtype == DType::F32
                && o.scratch.dtype == DType::F32
            &&& o.out.len() == o.q.len()
            &&& pos < desc.kv_len <= o.kt.shape[2]
            &&& ctx.buffer_device_address_enabled
            &&& first.kernel == ElementwiseKernel::Simt(
                match o.kt.dtype {
                    DType::F32 => Op::AttnDecodeDh64,
                    DType::F16 => Op::AttnDecodeKv16Dh64,
                },
            )
            &&& second.kernel == ElementwiseKernel::Simt(Op::AttnDecodeCombine)
            &&& first.groups_x <= ctx.max_groups_x && first.groups_y <= ctx.max_groups_y
            &&& second.groups_x <= ctx.max_groups_x && second.groups_y == 1
            &&& first.groups_y == kv_heads
            &&& first.push matches PushBlock::AttnDecode(a) && second.push
                matches PushBlock::AttnCombine(b) && {
                let rows = kv_heads * a.group;
                let row = cache_head * a.group + member;
                &&& rows * dh == o.q.len()
                &&& second.groups_x == rows
                &&& first.groups_x == a.num_chunks
                &&& desc.pos_addr != 0 ==> a.num_chunks == 32
                &&& 8 <= a.num_chunks <= 32
                &&& a.num_chunks == 32 || desc.kv_len <= a.num_chunks * 32
                &&& desc.pos_addr == 0 && a.num_chunks > 8 ==> (a.num_chunks - 1) * 32 < desc.kv_len
                &&& a.kv_len == desc.kv_len && a.pos_ptr == desc.pos_addr && a.scale == desc.scale
                &&& b.num_chunks == a.num_chunks && b.group == a.group && b.dh == dh
                &&& a.scratch_ptr == o.scratch.buffer.address && b.scratch_ptr == a.scratch_ptr
                &&& rows * a.num_chunks * (dh + 2) <= o.scratch.len()
                &&& decode_query(a, dh, cache_head, member, lane) == at(o.q, row * dh + lane)
                &&& decode_output(b, row, lane) == at(o.out, row * dh + lane)
                &&& decode_key(a, o.kt.dtype, dh, cache_head, lane, pos) == element(
                    o.kt,
                    seq![cache_head, lane, pos],
                )
                &&& decode_value(a, o.kt.dtype, dh, cache_head, lane, pos) == element(
                    o.v,
                    seq![cache_head, pos, lane],
                )
            }
        }),
{
    let (first, second) = attn_plan(ctx, o, desc)->Ok_0;
    let a = first.push->AttnDecode_0;
    let dh = o.kt.shape[1] as int;
    let kv_heads = o.kt.shape[0] as int;
    assert(o.kt.shape[0] != 0);
    let v = kv_heads * dh;
    assert(v > 0) by (nonlinear_arith)
        requires
            v == kv_heads * dh,
            kv_heads > 0,
            dh > 0,
    ;
    let group = o.q.len() as int / v;
    vstd::arithmetic::div_mod::lemma_fundamental_div_mod(o.q.len() as int, v);
    vstd::arithmetic::div_mod::lemma_div_pos_is_pos(o.q.len() as int, v);
    assert(a.group == group);
    assert(kv_heads * group * dh == v * group) by (nonlinear_arith)
        requires
            v == kv_heads * dh,
    ;
    lemma_rank3(o.kt.shape, cache_head, lane, pos);
    lemma_rank3(o.v.shape, cache_head, pos, lane);
    assert(o.v.shape =~= seq![o.kt.shape[0], o.kt.shape[2], o.kt.shape[1]]);
    let chunks = a.num_chunks as int;
    crate::arith::lemma_ceil_div(desc.kv_len as int, 32);
    assert(kv_heads * chunks * group * (dh + 2) == kv_heads * group * chunks * (dh + 2))
        by (nonlinear_arith);
    assert(kv_heads * group >= 0) by (nonlinear_arith)
        requires
            kv_heads >= 0,
            group >= 0,
    ;
}

} // verus!
