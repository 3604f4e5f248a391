//! Where the shaders find the fields of the blocks that they are given.

use crate::executor::elementwise::pc::{
    ArgmaxPc, AttnCombinePc, AttnDecodePc, BinaryPc, CopyPc, EmbedGatherPc, FlashPc, GemvChainPc,
    GemvJob, NormPc, PrefillQkvPackPc, RopePc, RopeScatterPc, SoftmaxPc,
};
use crate::executor::splitk2::SplitK2ReducePushConstants;
use crate::executor::streamk_exec::StreamKPushConstants;
use crate::persistent::PersistentPushConstants;
use crate::pipeline::abi::MatmulPushConstants;
use crate::push::{block, layout_bytes, low_first, number_bytes, Field};
use vstd::arithmetic::power::pow;
use vstd::prelude::*;

verus! {

/// The number that bytes stand for, the lowest first.
pub open spec fn from_low(bytes: Seq<u8>) -> int
    decreases bytes.len(),
{
    if bytes.len() == 0 {
        0
    } else {
        bytes[0] + 256 * from_low(bytes.skip(1))
    }
}

/// The number that a shader reads of `bytes` at an offset, on a machine that
/// keeps the highest or the lowest byte first.
pub open spec fn loaded(bytes: Seq<u8>, offset: int, width: int, high_first: bool) -> int {
    let field = bytes.subrange(offset, offset + width);
    if high_first {
        from_low(field.reverse())
    } else {
        from_low(field)
    }
}

proof fn lemma_low_first(value: int, count: nat)
    requires
        0 <= value,
    ensures
        low_first(value, count).len() == count,
        value < pow(256, count) ==> from_low(low_first(value, count)) == value,
    decreases count,
{
    reveal(pow);
    if count > 0 {
        let rest = (count - 1) as nat;
        assert(pow(256, count) == 256 * pow(256, rest));
        lemma_low_first(value / 256, rest);
        let bytes = low_first(value, count);
        assert(bytes.skip(1) =~= low_first(value / 256, rest));
        assert(bytes[0] == value % 256);
    }
}

/// A number is read back from its bytes.
proof fn lemma_number(value: int, count: nat, high_first: bool)
    requires
        0 <= value,
        count == 4 && value <= u32::MAX || count == 8 && value <= u64::MAX,
    ensures
        number_bytes(value, count, high_first).len() == count,
        loaded(number_bytes(value, count, high_first), 0, count as int, high_first) == value,
{
    lemma_low_first(value, count);
    assert(pow(256, 4) == 0x1_0000_0000 && pow(256, 8) == 0x1_0000_0000_0000_0000) by {
        reveal_with_fuel(pow, 9);
    }
    let bytes = number_bytes(value, count, high_first);
    assert(bytes.subrange(0, count as int) =~= bytes);
    if high_first {
        assert(bytes.reverse() =~= low_first(value, count));
    }
}

/// The number in a field.
pub open spec fn held(field: Field) -> int {
    match field {
        Field::Word(word) => word as int,
        Field::Address(address) => address as int,
    }
}

/// A shader finds the fields of a block one behind the other: each begins
/// where those before it end, and holds its number.
pub proof fn fields_are_found_in_order(fields: Seq<Field>, i: int, high_first: bool)
    requires
        0 <= i < fields.len(),
    ensures
        block(fields, high_first).len() == layout_bytes(fields),
        layout_bytes(fields.take(i + 1)) == layout_bytes(fields.take(i)) + fields[i].width(),
        layout_bytes(fields.take(i + 1)) <= layout_bytes(fields),
        loaded(
            block(fields, high_first),
            layout_bytes(fields.take(i)) as int,
            fields[i].width() as int,
            high_first,
        ) == held(fields[i]),
    decreases fields.len(),
{
    let front = fields.drop_last();
    let last = fields.last();
    let bytes = block(fields, high_first);
    let before = block(front, high_first);
    lemma_block_len(front, high_first);
    match last {
        Field::Word(word) => lemma_number(word as int, 4, high_first),
        Field::Address(address) => lemma_number(address as int, 8, high_first),
    }
    assert(fields.take(i + 1).drop_last() =~= fields.take(i));
    assert(fields.take(i + 1).last() == fields[i]);
    if i < fields.len() - 1 {
        fields_are_found_in_order(front, i, high_first);
        assert(front.take(i) =~= fields.take(i));
        assert(front.take(i + 1) =~= fields.take(i + 1));
        let o = layout_bytes(fields.take(i)) as int;
        let w = fields[i].width() as int;
        assert(bytes.subrange(o, o + w) =~= before.subrange(o, o + w));
    } else {
        assert(fields.take(i) =~= front);
        assert(fields.take(i + 1) =~= fields);
        let o = layout_bytes(front) as int;
        let w = last.width() as int;
        let field = last.in_order(high_first);
        assert(bytes.subrange(o, o + w) =~= field);
        assert(field.subrange(0, w) =~= field);
    }
}

proof fn lemma_block_len(fields: Seq<Field>, high_first: bool)
    ensures
        block(fields, high_first).len() == layout_bytes(fields),
    decreases fields.len(),
{
    if fields.len() > 0 {
        lemma_block_len(fields.drop_last(), high_first);
        match fields.last() {
            Field::Word(word) => lemma_number(word as int, 4, high_first),
            Field::Address(address) => lemma_number(address as int, 8, high_first),
        }
    }
}

/// The softmax shader finds the fields of its block at these offsets.
pub proof fn softmax_block_is_found(b: SoftmaxPc, high_first: bool)
    ensures
        ({
            let bytes = block(b.layout(), high_first);
            &&& bytes.len() == 40
            &&& loaded(bytes, 0, 4, high_first) == b.rows
            &&& loaded(bytes, 4, 4, high_first) == b.cols
            &&& loaded(bytes, 8, 4, high_first) == b.valid_base
            &&& loaded(bytes, 12, 4, high_first) == b.rows_per_group
            &&& loaded(bytes, 16, 4, high_first) == b.causal
            &&& loaded(bytes, 20, 4, high_first) == b.scale.bits
            &&& loaded(bytes, 24, 8, high_first) == b.in_ptr
            &&& loaded(bytes, 32, 8, high_first) == b.out_ptr
        }),
{
    let fields = b.layout();
    assert(fields.take(0) =~= Seq::<Field>::empty());
    assert(fields.take(8) =~= fields);
    fields_are_found_in_order(fields, 0, high_first);
    fields_are_found_in_order(fields, 1, high_first);
    fields_are_found_in_order(fields, 2, high_first);
    fields_are_found_in_order(fields, 3, high_first);
    fields_are_found_in_order(fields, 4, high_first);
    fields_are_found_in_order(fields, 5, high_first);
    fields_are_found_in_order(fields, 6, high_first);
    fields_are_found_in_order(fields, 7, high_first);
}

/// The norm shader finds the fields of its block at these offsets.
pub proof fn norm_block_is_found(b: NormPc, high_first: bool)
    ensures
        ({
            let bytes = block(b.layout(), high_first);
            &&& bytes.len() == 48
            &&& loaded(bytes, 0, 4, high_first) == b.rows
            &&& loaded(bytes, 4, 4, high_first) == b.cols
            &&& loaded(bytes, 8, 4, high_first) == b.eps.bits
            &&& loaded(bytes, 12, 4, high_first) == b.pad
            &&& loaded(bytes, 16, 8, high_first) == b.in_ptr
            &&& loaded(bytes, 24, 8, high_first) == b.out_ptr
            &&& loaded(bytes, 32, 8, high_first) == b.weight_ptr
            &&& loaded(bytes, 40, 8, high_first) == b.bias_ptr
        }),
{
    let fields = b.layout();
    assert(fields.take(0) =~= Seq::<Field>::empty());
    assert(fields.take(8) =~= fields);
    fields_are_found_in_order(fields, 0, high_first);
    fields_are_found_in_order(fields, 1, high_first);
    fields_are_found_in_order(fields, 2, high_first);
    fields_are_found_in_order(fields, 3, high_first);
    fields_are_found_in_order(fields, 4, high_first);
    fields_are_found_in_order(fields, 5, high_first);
    fields_are_found_in_order(fields, 6, high_first);
    fields_are_found_in_order(fields, 7, high_first);
}

/// The rotation shader finds the fields of its block at these offsets.
pub proof fn rope_block_is_found(b: RopePc, high_first: bool)
    ensures
        ({
            let bytes = block(b.layout(), high_first);
            &&& bytes.len() == 56
            &&& loaded(bytes, 0, 4, high_first) == b.tokens
            &&& loaded(bytes, 4, 4, high_first) == b.heads
            &&& loaded(bytes, 8, 4, high_first) == b.head_dim
            &&& loaded(bytes, 12, 4, high_first) == b.rot_dim
            &&& loaded(bytes, 16, 4, high_first) == b.pos_base
            &&& loaded(bytes, 20, 4, high_first) == b.pad
            &&& loaded(bytes, 24, 8, high_first) == b.in_ptr
            &&& loaded(bytes, 32, 8, high_first) == b.out_ptr
            &&& loaded(bytes, 40, 8, high_first) == b.table_ptr
            &&& loaded(bytes, 48, 8, high_first) == b.pos_ptr
        }),
{
    let fields = b.layout();
    assert(fields.take(0) =~= Seq::<Field>::empty());
    assert(fields.take(10) =~= fields);
    fields_are_found_in_order(fields, 0, high_first);
    fields_are_found_in_order(fields, 1, high_first);
    fields_are_found_in_order(fields, 2, high_first);
    fields_are_found_in_order(fields, 3, high_first);
    fields_are_found_in_order(fields, 4, high_first);
    fields_are_found_in_order(fields, 5, high_first);
    fields_are_found_in_order(fields, 6, high_first);
    fields_are_found_in_order(fields, 7, high_first);
    fields_are_found_in_order(fields, 8, high_first);
    fields_are_found_in_order(fields, 9, high_first);
}

/// The scattering-rotation shader finds the fields of its block at these offsets.
pub proof fn rope_scatter_block_is_found(b: RopeScatterPc, high_first: bool)
    ensures
        ({
            let bytes = block(b.layout(), high_first);
            &&& bytes.len() == 72
            &&& loaded(bytes, 0, 4, high_first) == b.tokens
            &&& loaded(bytes, 4, 4, high_first) == b.heads
            &&& loaded(bytes, 8, 4, high_first) == b.head_dim
            &&& loaded(bytes, 12, 4, high_first) == b.rot_dim
            &&& loaded(bytes, 16, 4, high_first) == b.pos_base
            &&& loaded(bytes, 20, 4, high_first) == b.dst_offset
            &&& loaded(bytes, 24, 4, high_first) == b.dst_strides[0]
            &&& loaded(bytes, 28, 4, high_first) == b.dst_strides[1]
            &&& loaded(bytes, 32, 4, high_first) == b.dst_strides[2]
            &&& loaded(bytes, 36, 4, high_first) == b.pos_scale
            &&& loaded(bytes, 40, 8, high_first) == b.in_ptr
            &&& loaded(bytes, 48, 8, high_first) == b.dst_ptr
            &&& loaded(bytes, 56, 8, high_first) == b.table_ptr
            &&& loaded(bytes, 64, 8, high_first) == b.pos_ptr
        }),
{
    let fields = b.layout();
    assert(fields.take(0) =~= Seq::<Field>::empty());
    assert(fields.take(14) =~= fields);
    fields_are_found_in_order(fields, 0, high_first);
    fields_are_found_in_order(fields, 1, high_first);
    fields_are_found_in_order(fields, 2, high_first);
    fields_are_found_in_order(fields, 3, high_first);
    fields_are_found_in_order(fields, 4, high_first);
    fields_are_found_in_order(fields, 5, high_first);
    fields_are_found_in_order(fields, 6, high_first);
    fields_are_found_in_order(fields, 7, high_first);
    fields_are_found_in_order(fields, 8, high_first);
    fields_are_found_in_order(fields, 9, high_first);
    fields_are_found_in_order(fields, 10, high_first);
    fields_are_found_in_order(fields, 11, high_first);
    fields_are_found_in_order(fields, 12, high_first);
    fields_are_found_in_order(fields, 13, high_first);
}

/// The copy shader finds the fields of its block at these offsets.
pub proof fn copy_block_is_found(b: CopyPc, high_first: bool)
    ensures
        ({
            let bytes = block(b.layout(), high_first);
            &&& bytes.len() == 72
            &&& loaded(bytes, 0, 4, high_first) == b.extent[0]
            &&& loaded(bytes, 4, 4, high_first) == b.extent[1]
            &&& loaded(bytes, 8, 4, high_first) == b.extent[2]
            &&& loaded(bytes, 12, 4, high_first) == b.src_offset
            &&& loaded(bytes, 16, 4, high_first) == b.src_strides[0]
            &&& loaded(bytes, 20, 4, high_first) == b.src_strides[1]
            &&& loaded(bytes, 24, 4, high_first) == b.src_strides[2]
            &&& loaded(bytes, 28, 4, high_first) == b.dst_offset
            &&& loaded(bytes, 32, 4, high_first) == b.dst_strides[0]
            &&& loaded(bytes, 36, 4, high_first) == b.dst_strides[1]
            &&& loaded(bytes, 40, 4, high_first) == b.dst_strides[2]
            &&& loaded(bytes, 44, 4, high_first) == b.pos_scale
            &&& loaded(bytes, 48, 8, high_first) == b.src_ptr
            &&& loaded(bytes, 56, 8, high_first) == b.dst_ptr
            &&& loaded(bytes, 64, 8, high_first) == b.pos_ptr
        }),
{
    let fields = b.layout();
    assert(fields.take(0) =~= Seq::<Field>::empty());
    assert(fields.take(15) =~= fields);
    fields_are_found_in_order(fields, 0, high_first);
    fields_are_found_in_order(fields, 1, high_first);
    fields_are_found_in_order(fields, 2, high_first);
    fields_are_found_in_order(fields, 3, high_first);
    fields_are_found_in_order(fields, 4, high_first);
    fields_are_found_in_order(fields, 5, high_first);
    fields_are_found_in_order(fields, 6, high_first);
    fields_are_found_in_order(fields, 7, high_first);
    fields_are_found_in_order(fields, 8, high_first);
    fields_are_found_in_order(fields, 9, high_first);
    fields_are_found_in_order(fields, 10, high_first);
    fields_are_found_in_order(fields, 11, high_first);
    fields_are_found_in_order(fields, 12, high_first);
    fields_are_found_in_order(fields, 13, high_first);
    fields_are_found_in_order(fields, 14, high_first);
}

/// The binary shader finds the fields of its block at these offsets.
pub proof fn binary_block_is_found(b: BinaryPc, high_first: bool)
    ensures
        ({
            let bytes = block(b.layout(), high_first);
            &&& bytes.len() == 40
            &&& loaded(bytes, 0, 4, high_first) == b.n
            &&& loaded(bytes, 4, 4, high_first) == b.mode
            &&& loaded(bytes, 8, 4, high_first) == b.beta.bits
            &&& loaded(bytes, 12, 4, high_first) == b.pad
            &&& loaded(bytes, 16, 8, high_first) == b.a_ptr
            &&& loaded(bytes, 24, 8, high_first) == b.b_ptr
            &&& loaded(bytes, 32, 8, high_first) == b.out_ptr
        }),
{
    let fields = b.layout();
    assert(fields.take(0) =~= Seq::<Field>::empty());
    assert(fields.take(7) =~= fields);
    fields_are_found_in_order(fields, 0, high_first);
    fields_are_found_in_order(fields, 1, high_first);
    fields_are_found_in_order(fields, 2, high_first);
    fields_are_found_in_order(fields, 3, high_first);
    fields_are_found_in_order(fields, 4, high_first);
    fields_are_found_in_order(fields, 5, high_first);
    fields_are_found_in_order(fields, 6, high_first);
}

/// The flash-attention shader finds the fields of its block at these offsets.
pub proof fn flash_block_is_found(b: FlashPc, high_first: bool)
    ensures
        ({
            let bytes = block(b.layout(), high_first);
            &&& bytes.len() == 72
            &&& loaded(bytes, 0, 4, high_first) == b.t_q
            &&& loaded(bytes, 4, 4, high_first) == b.t_max
            &&& loaded(bytes, 8, 4, high_first) == b.kv_len
            &&& loaded(bytes, 12, 4, high_first) == b.pos_base
            &&& loaded(bytes, 16, 4, high_first) == b.group_size
            &&& loaded(bytes, 20, 4, high_first) == b.scale.bits
            &&& loaded(bytes, 24, 4, high_first) == b.q_head_stride
            &&& loaded(bytes, 28, 4, high_first) == b.q_row_stride
            &&& loaded(bytes, 32, 4, high_first) == b.o_head_stride
            &&& loaded(bytes, 36, 4, high_first) == b.o_row_stride
            &&& loaded(bytes, 40, 8, high_first) == b.q_ptr
            &&& loaded(bytes, 48, 8, high_first) == b.kt_ptr
            &&& loaded(bytes, 56, 8, high_first) == b.v_ptr
            &&& loaded(bytes, 64, 8, high_first) == b.out_ptr
        }),
{
    let fields = b.layout();
    assert(fields.take(0) =~= Seq::<Field>::empty());
    assert(fields.take(14) =~= fields);
    fields_are_found_in_order(fields, 0, high_first);
    fields_are_found_in_order(fields, 1, high_first);
    fields_are_found_in_order(fields, 2, high_first);
    fields_are_found_in_order(fields, 3, high_first);
    fields_are_found_in_order(fields, 4, high_first);
    fields_are_found_in_order(fields, 5, high_first);
    fields_are_found_in_order(fields, 6, high_first);
    fields_are_found_in_order(fields, 7, high_first);
    fields_are_found_in_order(fields, 8, high_first);
    fields_are_found_in_order(fields, 9, high_first);
    fields_are_found_in_order(fields, 10, high_first);
    fields_are_found_in_order(fields, 11, high_first);
    fields_are_found_in_order(fields, 12, high_first);
    fields_are_found_in_order(fields, 13, high_first);
}

/// The pack shader finds the fields of its block at these offsets.
pub proof fn pack_block_is_found(b: PrefillQkvPackPc, high_first: bool)
    ensures
        ({
            let bytes = block(b.layout(), high_first);
            &&& bytes.len() == 80
            &&& loaded(bytes, 0, 4, high_first) == b.tokens
            &&& loaded(bytes, 4, 4, high_first) == b.heads
            &&& loaded(bytes, 8, 4, high_first) == b.kv_heads
            &&& loaded(bytes, 12, 4, high_first) == b.head_dim
            &&& loaded(bytes, 16, 4, high_first) == b.rot_dim
            &&& loaded(bytes, 20, 4, high_first) == b.pos_base
            &&& loaded(bytes, 24, 4, high_first) == b.qkv_stride
            &&& loaded(bytes, 28, 4, high_first) == b.t_max
            &&& loaded(bytes, 32, 4, high_first) == b.k_offset
            &&& loaded(bytes, 36, 4, high_first) == b.v_offset
            &&& loaded(bytes, 40, 8, high_first) == b.qkv_ptr
            &&& loaded(bytes, 48, 8, high_first) == b.q_ptr
            &&& loaded(bytes, 56, 8, high_first) == b.kt_ptr
            &&& loaded(bytes, 64, 8, high_first) == b.v_ptr
            &&& loaded(bytes, 72, 8, high_first) == b.table_ptr
        }),
{
    let fields = b.layout();
    assert(fields.take(0) =~= Seq::<Field>::empty());
    assert(fields.take(15) =~= fields);
    fields_are_found_in_order(fields, 0, high_first);
    fields_are_found_in_order(fields, 1, high_first);
    fields_are_found_in_order(fields, 2, high_first);
    fields_are_found_in_order(fields, 3, high_first);
    fields_are_found_in_order(fields, 4, high_first);
    fields_are_found_in_order(fields, 5, high_first);
    fields_are_found_in_order(fields, 6, high_first);
    fields_are_found_in_order(fields, 7, high_first);
    fields_are_found_in_order(fields, 8, high_first);
    fields_are_found_in_order(fields, 9, high_first);
    fields_are_found_in_order(fields, 10, high_first);
    fields_are_found_in_order(fields, 11, high_first);
    fields_are_found_in_order(fields, 12, high_first);
    fields_are_found_in_order(fields, 13, high_first);
    fields_are_found_in_order(fields, 14, high_first);
}

/// The decode shader finds the fields of its block at these offsets.
pub proof fn decode_block_is_found(b: AttnDecodePc, high_first: bool)
    ensures
        ({
            let bytes = block(b.layout(), high_first);
            &&& bytes.len() == 64
            &&& loaded(bytes, 0, 4, high_first) == b.kv_len
            &&& loaded(bytes, 4, 4, high_first) == b.num_chunks
            &&& loaded(bytes, 8, 4, high_first) == b.group
            &&& loaded(bytes, 12, 4, high_first) == b.t_max
            &&& loaded(bytes, 16, 4, high_first) == b.scale.bits
            &&& loaded(bytes, 20, 4, high_first) == b.pad
            &&& loaded(bytes, 24, 8, high_first) == b.q_ptr
            &&& loaded(bytes, 32, 8, high_first) == b.kt_ptr
            &&& loaded(bytes, 40, 8, high_first) == b.v_ptr
            &&& loaded(bytes, 48, 8, high_first) == b.scratch_ptr
            &&& loaded(bytes, 56, 8, high_first) == b.pos_ptr
        }),
{
    let fields = b.layout();
    assert(fields.take(0) =~= Seq::<Field>::empty());
    assert(fields.take(11) =~= fields);
    fields_are_found_in_order(fields, 0, high_first);
    fields_are_found_in_order(fields, 1, high_first);
    fields_are_found_in_order(fields, 2, high_first);
    fields_are_found_in_order(fields, 3, high_first);
    fields_are_found_in_order(fields, 4, high_first);
    fields_are_found_in_order(fields, 5, high_first);
    fields_are_found_in_order(fields, 6, high_first);
    fields_are_found_in_order(fields, 7, high_first);
    fields_are_found_in_order(fields, 8, high_first);
    fields_are_found_in_order(fields, 9, high_first);
    fields_are_found_in_order(fields, 10, high_first);
}

/// The combining shader finds the fields of its block at these offsets.
pub proof fn combine_block_is_found(b: AttnCombinePc, high_first: bool)
    ensures
        ({
            let bytes = block(b.layout(), high_first);
            &&& bytes.len() == 32
            &&& loaded(bytes, 0, 4, high_first) == b.num_chunks
            &&& loaded(bytes, 4, 4, high_first) == b.group
            &&& loaded(bytes, 8, 4, high_first) == b.dh
            &&& loaded(bytes, 12, 4, high_first) == b.pad
            &&& loaded(bytes, 16, 8, high_first) == b.scratch_ptr
            &&& loaded(bytes, 24, 8, high_first) == b.out_ptr
        }),
{
    let fields = b.layout();
    assert(fields.take(0) =~= Seq::<Field>::empty());
    assert(fields.take(6) =~= fields);
    fields_are_found_in_order(fields, 0, high_first);
    fields_are_found_in_order(fields, 1, high_first);
    fields_are_found_in_order(fields, 2, high_first);
    fields_are_found_in_order(fields, 3, high_first);
    fields_are_found_in_order(fields, 4, high_first);
    fields_are_found_in_order(fields, 5, high_first);
}

/// The argmax shader finds the fields of its block at these offsets.
pub proof fn argmax_block_is_found(b: ArgmaxPc, high_first: bool)
    ensures
        ({
            let bytes = block(b.layout(), high_first);
            &&& bytes.len() == 24
            &&& loaded(bytes, 0, 4, high_first) == b.n
            &&& loaded(bytes, 4, 4, high_first) == b.pad
            &&& loaded(bytes, 8, 8, high_first) == b.in_ptr
            &&& loaded(bytes, 16, 8, high_first) == b.result_ptr
        }),
{
    let fields = b.layout();
    assert(fields.take(0) =~= Seq::<Field>::empty());
    assert(fields.take(4) =~= fields);
    fields_are_found_in_order(fields, 0, high_first);
    fields_are_found_in_order(fields, 1, high_first);
    fields_are_found_in_order(fields, 2, high_first);
    fields_are_found_in_order(fields, 3, high_first);
}

/// The gather shader finds the fields of its block at these offsets.
pub proof fn gather_block_is_found(b: EmbedGatherPc, high_first: bool)
    ensures
        ({
            let bytes = block(b.layout(), high_first);
            &&& bytes.len() == 48
            &&& loaded(bytes, 0, 4, high_first) == b.embd
            &&& loaded(bytes, 4, 4, high_first) == b.vocab
            &&& loaded(bytes, 8, 4, high_first) == b.table_f16
            &&& loaded(bytes, 12, 4, high_first) == b.n_tokens
            &&& loaded(bytes, 16, 4, high_first) == b.out_f16
            &&& loaded(bytes, 20, 4, high_first) == b.pad
            &&& loaded(bytes, 24, 8, high_first) == b.token_ptr
            &&& loaded(bytes, 32, 8, high_first) == b.table_ptr
            &&& loaded(bytes, 40, 8, high_first) == b.out_ptr
        }),
{
    let fields = b.layout();
    assert(fields.take(0) =~= Seq::<Field>::empty());
    assert(fields.take(9) =~= fields);
    fields_are_found_in_order(fields, 0, high_first);
    fields_are_found_in_order(fields, 1, high_first);
    fields_are_found_in_order(fields, 2, high_first);
    fields_are_found_in_order(fields, 3, high_first);
    fields_are_found_in_order(fields, 4, high_first);
    fields_are_found_in_order(fields, 5, high_first);
    fields_are_found_in_order(fields, 6, high_first);
    fields_are_found_in_order(fields, 7, high_first);
    fields_are_found_in_order(fields, 8, high_first);
}

/// The chain shader finds the fields of its block at these offsets.
pub proof fn chain_block_is_found(b: GemvChainPc, high_first: bool)
    ensures
        ({
            let bytes = block(b.layout(), high_first);
            &&& bytes.len() == 24
            &&& loaded(bytes, 0, 8, high_first) == b.jobs_ptr
            &&& loaded(bytes, 8, 8, high_first) == b.sync_ptr
            &&& loaded(bytes, 16, 4, high_first) == b.n_jobs
            &&& loaded(bytes, 20, 4, high_first) == b.n_wg
        }),
{
    let fields = b.layout();
    assert(fields.take(0) =~= Seq::<Field>::empty());
    assert(fields.take(4) =~= fields);
    fields_are_found_in_order(fields, 0, high_first);
    fields_are_found_in_order(fields, 1, high_first);
    fields_are_found_in_order(fields, 2, high_first);
    fields_are_found_in_order(fields, 3, high_first);
}

/// The chain shader finds the fields of its job at these offsets.
pub proof fn chain_job_is_found(b: GemvJob, high_first: bool)
    ensures
        ({
            let bytes = block(b.layout(), high_first);
            &&& bytes.len() == 80
            &&& loaded(bytes, 0, 4, high_first) == b.n
            &&& loaded(bytes, 4, 4, high_first) == b.k
            &&& loaded(bytes, 8, 4, high_first) == b.flags
            &&& loaded(bytes, 12, 4, high_first) == b.vcols
            &&& loaded(bytes, 16, 4, high_first) == b.alpha.bits
            &&& loaded(bytes, 20, 4, high_first) == b.beta.bits
            &&& loaded(bytes, 24, 4, high_first) == b.pad0
            &&& loaded(bytes, 28, 4, high_first) == b.pad1
            &&& loaded(bytes, 32, 8, high_first) == b.a_ptr
            &&& loaded(bytes, 40, 8, high_first) == b.b_ptr
            &&& loaded(bytes, 48, 8, high_first) == b.c_ptr
            &&& loaded(bytes, 56, 8, high_first) == b.d_ptr
            &&& loaded(bytes, 64, 8, high_first) == b.bias_ptr
            &&& loaded(bytes, 72, 8, high_first) == b.pad2
        }),
{
    let fields = b.layout();
    assert(fields.take(0) =~= Seq::<Field>::empty());
    assert(fields.take(14) =~= fields);
    fields_are_found_in_order(fields, 0, high_first);
    fields_are_found_in_order(fields, 1, high_first);
    fields_are_found_in_order(fields, 2, high_first);
    fields_are_found_in_order(fields, 3, high_first);
    fields_are_found_in_order(fields, 4, high_first);
    fields_are_found_in_order(fields, 5, high_first);
    fields_are_found_in_order(fields, 6, high_first);
    fields_are_found_in_order(fields, 7, high_first);
    fields_are_found_in_order(fields, 8, high_first);
    fields_are_found_in_order(fields, 9, high_first);
    fields_are_found_in_order(fields, 10, high_first);
    fields_are_found_in_order(fields, 11, high_first);
    fields_are_found_in_order(fields, 12, high_first);
    fields_are_found_in_order(fields, 13, high_first);
}

/// The matmul shader finds the fields of its block at these offsets.
pub proof fn matmul_block_is_found(b: MatmulPushConstants, high_first: bool)
    ensures
        ({
            let bytes = block(b.layout(), high_first);
            &&& bytes.len() == 128
            &&& loaded(bytes, 0, 4, high_first) == b.m
            &&& loaded(bytes, 4, 4, high_first) == b.n
            &&& loaded(bytes, 8, 4, high_first) == b.k
            &&& loaded(bytes, 12, 4, high_first) == b.batch_stride_a
            &&& loaded(bytes, 16, 4, high_first) == b.batch_stride_b
            &&& loaded(bytes, 20, 4, high_first) == b.batch_stride_c
            &&& loaded(bytes, 24, 4, high_first) == b.flags
            &&& loaded(bytes, 28, 4, high_first) == b.alpha.bits
            &&& loaded(bytes, 32, 8, high_first) == b.a_ptr
            &&& loaded(bytes, 40, 8, high_first) == b.b_ptr
            &&& loaded(bytes, 48, 8, high_first) == b.c_ptr
            &&& loaded(bytes, 56, 8, high_first) == b.d_ptr
            &&& loaded(bytes, 64, 8, high_first) == b.bias_ptr
            &&& loaded(bytes, 72, 4, high_first) == b.beta.bits
            &&& loaded(bytes, 76, 4, high_first) == b.bias_batch_stride
            &&& loaded(bytes, 80, 4, high_first) == b.store_pos_base
            &&& loaded(bytes, 84, 4, high_first) == b.store_pos_scale
            &&& loaded(bytes, 88, 4, high_first) == b.store_stride_head
            &&& loaded(bytes, 92, 4, high_first) == b.store_stride_dim
            &&& loaded(bytes, 96, 4, high_first) == b.store_head_dim
            &&& loaded(bytes, 100, 4, high_first) == 0
            &&& loaded(bytes, 104, 8, high_first) == b.store_pos_ptr
            &&& loaded(bytes, 112, 8, high_first) == b.store_table_ptr
            &&& loaded(bytes, 120, 8, high_first) == b.store_dst_ptr
        }),
{
    let fields = b.layout();
    assert(fields.take(0) =~= Seq::<Field>::empty());
    assert(fields.take(24) =~= fields);
    fields_are_found_in_order(fields, 0, high_first);
    fields_are_found_in_order(fields, 1, high_first);
    fields_are_found_in_order(fields, 2, high_first);
    fields_are_found_in_order(fields, 3, high_first);
    fields_are_found_in_order(fields, 4, high_first);
    fields_are_found_in_order(fields, 5, high_first);
    fields_are_found_in_order(fields, 6, high_first);
    fields_are_found_in_order(fields, 7, high_first);
    fields_are_found_in_order(fields, 8, high_first);
    fields_are_found_in_order(fields, 9, high_first);
    fields_are_found_in_order(fields, 10, high_first);
    fields_are_found_in_order(fields, 11, high_first);
    fields_are_found_in_order(fields, 12, high_first);
    fields_are_found_in_order(fields, 13, high_first);
    fields_are_found_in_order(fields, 14, high_first);
    fields_are_found_in_order(fields, 15, high_first);
    fields_are_found_in_order(fields, 16, high_first);
    fields_are_found_in_order(fields, 17, high_first);
    fields_are_found_in_order(fields, 18, high_first);
    fields_are_found_in_order(fields, 19, high_first);
    fields_are_found_in_order(fields, 20, high_first);
    fields_are_found_in_order(fields, 21, high_first);
    fields_are_found_in_order(fields, 22, high_first);
    fields_are_found_in_order(fields, 23, high_first);
}

/// The reducing shader finds the fields of its block at these offsets.
pub proof fn split_reduce_block_is_found(b: SplitK2ReducePushConstants, high_first: bool)
    ensures
        ({
            let bytes = block(b.layout(), high_first);
            &&& bytes.len() == 32
            &&& loaded(bytes, 0, 4, high_first) == b.total
            &&& loaded(bytes, 4, 4, high_first) == b.mn
            &&& loaded(bytes, 8, 4, high_first) == b.num_splits
            &&& loaded(bytes, 12, 4, high_first) == b.pad
            &&& loaded(bytes, 16, 8, high_first) == b.scratch_ptr
            &&& loaded(bytes, 24, 8, high_first) == b.c_ptr
        }),
{
    let fields = b.layout();
    assert(fields.take(0) =~= Seq::<Field>::empty());
    assert(fields.take(6) =~= fields);
    fields_are_found_in_order(fields, 0, high_first);
    fields_are_found_in_order(fields, 1, high_first);
    fields_are_found_in_order(fields, 2, high_first);
    fields_are_found_in_order(fields, 3, high_first);
    fields_are_found_in_order(fields, 4, high_first);
    fields_are_found_in_order(fields, 5, high_first);
}

/// The Stream-K shader finds the fields of its block at these offsets.
pub proof fn stream_k_block_is_found(b: StreamKPushConstants, high_first: bool)
    ensures
        ({
            let bytes = block(b.layout(), high_first);
            &&& bytes.len() == 88
            &&& loaded(bytes, 0, 4, high_first) == b.m
            &&& loaded(bytes, 4, 4, high_first) == b.n
            &&& loaded(bytes, 8, 4, high_first) == b.k
            &&& loaded(bytes, 12, 4, high_first) == b.batch_stride_a
            &&& loaded(bytes, 16, 4, high_first) == b.batch_stride_b
            &&& loaded(bytes, 20, 4, high_first) == b.batch_stride_c
            &&& loaded(bytes, 24, 4, high_first) == b.flags
            &&& loaded(bytes, 28, 4, high_first) == b.alpha.bits
            &&& loaded(bytes, 32, 8, high_first) == b.a_ptr
            &&& loaded(bytes, 40, 8, high_first) == b.b_ptr
            &&& loaded(bytes, 48, 8, high_first) == b.c_ptr
            &&& loaded(bytes, 56, 4, high_first) == b.iters_per_tile
            &&& loaded(bytes, 60, 4, high_first) == b.iters_per_wg_sk
            &&& loaded(bytes, 64, 4, high_first) == b.rem_sk
            &&& loaded(bytes, 68, 4, high_first) == b.n_tiles
            &&& loaded(bytes, 72, 4, high_first) == b.dp_tiles_total
            &&& loaded(bytes, 76, 4, high_first) == b.g_sk
            &&& loaded(bytes, 80, 4, high_first) == b.total_iters_sk
            &&& loaded(bytes, 84, 4, high_first) == b.pad
        }),
{
    let fields = b.layout();
    assert(fields.take(0) =~= Seq::<Field>::empty());
    assert(fields.take(19) =~= fields);
    fields_are_found_in_order(fields, 0, high_first);
    fields_are_found_in_order(fields, 1, high_first);
    fields_are_found_in_order(fields, 2, high_first);
    fields_are_found_in_order(fields, 3, high_first);
    fields_are_found_in_order(fields, 4, high_first);
    fields_are_found_in_order(fields, 5, high_first);
    fields_are_found_in_order(fields, 6, high_first);
    fields_are_found_in_order(fields, 7, high_first);
    fields_are_found_in_order(fields, 8, high_first);
    fields_are_found_in_order(fields, 9, high_first);
    fields_are_found_in_order(fields, 10, high_first);
    fields_are_found_in_order(fields, 11, high_first);
    fields_are_found_in_order(fields, 12, high_first);
    fields_are_found_in_order(fields, 13, high_first);
    fields_are_found_in_order(fields, 14, high_first);
    fields_are_found_in_order(fields, 15, high_first);
    fields_are_found_in_order(fields, 16, high_first);
    fields_are_found_in_order(fields, 17, high_first);
    fields_are_found_in_order(fields, 18, high_first);
}

/// The persistent shader finds the fields of its block at these offsets.
pub proof fn persistent_block_is_found(b: PersistentPushConstants, high_first: bool)
    ensures
        ({
            let bytes = block(b.layout(), high_first);
            &&& bytes.len() == 80
            &&& loaded(bytes, 0, 4, high_first) == b.m
            &&& loaded(bytes, 4, 4, high_first) == b.n
            &&& loaded(bytes, 8, 4, high_first) == b.k
            &&& loaded(bytes, 12, 4, high_first) == b.batch_stride_a
            &&& loaded(bytes, 16, 4, high_first) == b.batch_stride_b
            &&& loaded(bytes, 20, 4, high_first) == b.batch_stride_c
            &&& loaded(bytes, 24, 4, high_first) == b.flags
            &&& loaded(bytes, 28, 4, high_first) == b.alpha.bits
            &&& loaded(bytes, 32, 8, high_first) == b.a_ptr
            &&& loaded(bytes, 40, 8, high_first) == b.b_ptr
            &&& loaded(bytes, 48, 8, high_first) == b.c_ptr
            &&& loaded(bytes, 56, 8, high_first) == b.counter_ptr
            &&& loaded(bytes, 64, 4, high_first) == b.grid_x
            &&& loaded(bytes, 68, 4, high_first) == b.grid_y
            &&& loaded(bytes, 72, 4, high_first) == b.num_tiles
            &&& loaded(bytes, 76, 4, high_first) == b.pad
        }),
{
    let fields = b.layout();
    assert(fields.take(0) =~= Seq::<Field>::empty());
    assert(fields.take(16) =~= fields);
    fields_are_found_in_order(fields, 0, high_first);
    fields_are_found_in_order(fields, 1, high_first);
    fields_are_found_in_order(fields, 2, high_first);
    fields_are_found_in_order(fields, 3, high_first);
    fields_are_found_in_order(fields, 4, high_first);
    fields_are_found_in_order(fields, 5, high_first);
    fields_are_found_in_order(fields, 6, high_first);
    fields_are_found_in_order(fields, 7, high_first);
    fields_are_found_in_order(fields, 8, high_first);
    fields_are_found_in_order(fields, 9, high_first);
    fields_are_found_in_order(fields, 10, high_first);
    fields_are_found_in_order(fields, 11, high_first);
    fields_are_found_in_order(fields, 12, high_first);
    fields_are_found_in_order(fields, 13, high_first);
    fields_are_found_in_order(fields, 14, high_first);
    fields_are_found_in_order(fields, 15, high_first);
}

} // verus!
