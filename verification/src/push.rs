//! How push constants and tables reach the shaders: as bytes in the machine's
//! byte order.

use crate::executor::splitk2::SplitK2ReducePushConstants;
use crate::executor::streamk_exec::StreamKPushConstants;
use crate::persistent::PersistentPushConstants;
use crate::pipeline::abi::MatmulPushConstants;
use vstd::prelude::*;

verus! {

/// A field of a block that shaders read.
#[derive(Copy, Clone, Debug, PartialEq, Eq, Structural)]
pub enum Field {
    Word(u32),
    Address(u64),
}

/// The little-endian bytes of a number, `count` of them.
pub open spec fn low_first(value: int, count: nat) -> Seq<u8>
    decreases count,
{
    if count == 0 {
        Seq::empty()
    } else {
        seq![(value % 256) as u8] + low_first(value / 256, (count - 1) as nat)
    }
}

/// The bytes of a number, the highest or the lowest first.
pub open spec fn number_bytes(value: int, count: nat, high_first: bool) -> Seq<u8> {
    if high_first {
        low_first(value, count).reverse()
    } else {
        low_first(value, count)
    }
}

impl Field {
    /// Bytes of a field.
    pub open spec fn width(self) -> nat {
        match self {
            Field::Word(_) => 4,
            Field::Address(_) => 8,
        }
    }

    /// The field's bytes in a byte order.
    pub open spec fn in_order(self, high_first: bool) -> Seq<u8> {
        match self {
            Field::Word(word) => number_bytes(word as int, 4, high_first),
            Field::Address(address) => number_bytes(address as int, 8, high_first),
        }
    }
}

/// Bytes of a list of fields.
pub open spec fn layout_bytes(fields: Seq<Field>) -> nat
    decreases fields.len(),
{
    if fields.len() == 0 {
        0
    } else {
        layout_bytes(fields.drop_last()) + fields.last().width()
    }
}

/// The fields' bytes in a byte order, one behind the other without a gap.
pub open spec fn block(fields: Seq<Field>, high_first: bool) -> Seq<u8>
    decreases fields.len(),
{
    if fields.len() == 0 {
        Seq::empty()
    } else {
        block(fields.drop_last(), high_first) + fields.last().in_order(high_first)
    }
}

/// `bytes` hold the fields, all in one byte order.
pub open spec fn encodes(bytes: Seq<u8>, fields: Seq<Field>) -> bool {
    bytes == block(fields, false) || bytes == block(fields, true)
}

/// Words as fields.
pub open spec fn word_fields(words: Seq<u32>) -> Seq<Field> {
    Seq::new(words.len(), |i: int| Field::Word(words[i]))
}

/// Addresses as fields.
pub open spec fn address_fields(addresses: Seq<u64>) -> Seq<Field> {
    Seq::new(addresses.len(), |i: int| Field::Address(addresses[i]))
}

/// `bytemuck::cast_slice`, of words and of addresses: the memory of both, in
/// the machine's byte order. Which of the two orders that is, is not said.
#[verifier::external_body]
fn memory_of(words: &[u32], addresses: &[u64]) -> (r: (Vec<u8>, Vec<u8>))
    ensures
        exists|high_first: bool|
            r.0@ == #[trigger] block(word_fields(words@), high_first) && r.1@ == block(
                address_fields(addresses@),
                high_first,
            ),
{
    (
        bytemuck::cast_slice::<u32, u8>(words).to_vec(),
        bytemuck::cast_slice::<u64, u8>(addresses).to_vec(),
    )
}

/// The words among some fields.
pub open spec fn words_in(fields: Seq<Field>) -> Seq<u32>
    decreases fields.len(),
{
    if fields.len() == 0 {
        Seq::empty()
    } else {
        match fields.last() {
            Field::Word(word) => words_in(fields.drop_last()).push(word),
            Field::Address(_) => words_in(fields.drop_last()),
        }
    }
}

/// The addresses among some fields.
pub open spec fn addresses_in(fields: Seq<Field>) -> Seq<u64>
    decreases fields.len(),
{
    if fields.len() == 0 {
        Seq::empty()
    } else {
        match fields.last() {
            Field::Word(_) => addresses_in(fields.drop_last()),
            Field::Address(address) => addresses_in(fields.drop_last()).push(address),
        }
    }
}

proof fn lemma_number_len(value: int, count: nat, high_first: bool)
    ensures
        low_first(value, count).len() == count,
        number_bytes(value, count, high_first).len() == count,
    decreases count,
{
    if count > 0 {
        lemma_number_len(value / 256, (count - 1) as nat, high_first);
    }
}

proof fn lemma_block_len(fields: Seq<Field>, high_first: bool)
    ensures
        block(fields, high_first).len() == layout_bytes(fields),
    decreases fields.len(),
{
    if fields.len() > 0 {
        lemma_block_len(fields.drop_last(), high_first);
        match fields.last() {
            Field::Word(word) => lemma_number_len(word as int, 4, high_first),
            Field::Address(address) => lemma_number_len(address as int, 8, high_first),
        }
    }
}

/// Fields of one width lie at multiples of it.
proof fn lemma_piece(fields: Seq<Field>, width: nat, high_first: bool, i: int)
    requires
        forall|j: int| 0 <= j < fields.len() ==> (#[trigger] fields[j]).width() == width,
        0 <= i < fields.len(),
    ensures
        block(fields, high_first).len() == width * fields.len(),
        block(fields, high_first).subrange(width * i, width * i + width) == fields[i].in_order(
            high_first,
        ),
        0 <= width * i,
        width * i + width <= width * fields.len(),
    decreases fields.len(),
{
    let front = fields.drop_last();
    lemma_uniform_len(front, width, high_first);
    lemma_uniform_len(fields, width, high_first);
    let all = block(fields, high_first);
    let n = fields.len() as int;
    assert(width * n == width * (n - 1) + width) by (nonlinear_arith);
    assert(0 <= width * i && width * i + width <= width * n) by (nonlinear_arith)
        requires
            0 <= i < n,
            width >= 0,
    ;
    if i == n - 1 {
        assert(all.subrange(width * i, width * i + width) =~= fields.last().in_order(high_first));
    } else {
        lemma_piece(front, width, high_first, i);
        assert(width * i + width <= width * (n - 1)) by (nonlinear_arith)
            requires
                0 <= i < n - 1,
                width >= 0,
        ;
        assert(front[i] == fields[i]);
        assert(all.subrange(width * i, width * i + width) =~= block(front, high_first).subrange(
            width * i,
            width * i + width,
        ));
    }
}

proof fn lemma_uniform_len(fields: Seq<Field>, width: nat, high_first: bool)
    requires
        forall|j: int| 0 <= j < fields.len() ==> (#[trigger] fields[j]).width() == width,
    ensures
        block(fields, high_first).len() == width * fields.len(),
        layout_bytes(fields) == width * fields.len(),
    decreases fields.len(),
{
    lemma_block_len(fields, high_first);
    if fields.len() > 0 {
        let n = fields.len() as int;
        lemma_uniform_len(fields.drop_last(), width, high_first);
        assert(fields.last().width() == width);
        assert(width * n == width * (n - 1) + width) by (nonlinear_arith);
    } else {
        assert(width * 0 == 0);
    }
}

/// The words and addresses of a front part come first.
proof fn lemma_front(fields: Seq<Field>, i: int)
    requires
        0 <= i <= fields.len(),
    ensures
        words_in(fields.take(i)).len() <= words_in(fields).len(),
        forall|j: int| 0 <= j < words_in(fields.take(i)).len() ==> #[trigger] words_in(fields.take(i))[j]
            == words_in(fields)[j],
        addresses_in(fields.take(i)).len() <= addresses_in(fields).len(),
        forall|j: int|
            0 <= j < addresses_in(fields.take(i)).len() ==> #[trigger] addresses_in(fields.take(i))[j]
                == addresses_in(fields)[j],
    decreases fields.len() - i,
{
    if i == fields.len() {
        assert(fields.take(i) =~= fields);
    } else {
        lemma_front(fields, i + 1);
        assert(fields.take(i + 1).drop_last() =~= fields.take(i));
        let w = words_in(fields.take(i));
        let a = addresses_in(fields.take(i));
        assert forall|j: int| 0 <= j < w.len() implies #[trigger] w[j] == words_in(fields)[j] by {
            assert(words_in(fields.take(i + 1))[j] == w[j]);
        }
        assert forall|j: int| 0 <= j < a.len() implies #[trigger] a[j] == addresses_in(fields)[j] by {
            assert(addresses_in(fields.take(i + 1))[j] == a[j]);
        }
    }
}

fn append(to: &mut Vec<u8>, from: &[u8], start: usize, end: usize)
    requires
        start <= end <= from@.len(),
    ensures
        final(to)@ == old(to)@ + from@.subrange(start as int, end as int),
{
    let mut i: usize = start;
    while i < end
        invariant
            start <= i <= end <= from@.len(),
            to@ =~= old(to)@ + from@.subrange(start as int, i as int),
        decreases end - i,
    {
        to.push(from[i]);
        i = i + 1;
    }
}

fn split_fields(fields: &[Field]) -> (r: (Vec<u32>, Vec<u64>))
    ensures
        r.0@ == words_in(fields@),
        r.1@ == addresses_in(fields@),
{
    let mut words: Vec<u32> = Vec::new();
    let mut addresses: Vec<u64> = Vec::new();
    let mut i: usize = 0;
    assert(fields@.take(0) =~= Seq::empty());
    while i < fields.len()
        invariant
            i <= fields@.len(),
            words@ == words_in(fields@.take(i as int)),
            addresses@ == addresses_in(fields@.take(i as int)),
        decreases fields.len() - i,
    {
        proof {
            assert(fields@.take(i + 1).drop_last() =~= fields@.take(i as int));
        }
        match fields[i] {
            Field::Word(word) => words.push(word),
            Field::Address(address) => addresses.push(address),
        }
        i = i + 1;
    }
    assert(fields@.take(i as int) =~= fields@);
    (words, addresses)
}

/// The bytes of a list of fields.
pub fn encode(fields: &[Field]) -> (r: Vec<u8>)
    ensures
        encodes(r@, fields@),
        r@.len() == layout_bytes(fields@),
{
    let (words, addresses): (Vec<u32>, Vec<u64>) = split_fields(fields);
    let (low, high): (Vec<u8>, Vec<u8>) = memory_of(&words, &addresses);
    let ghost order = choose|order: bool|
        low@ == #[trigger] block(word_fields(words@), order) && high@ == block(
            address_fields(addresses@),
            order,
        );
    let low_len: usize = low.len();
    let high_len: usize = high.len();
    let mut out: Vec<u8> = Vec::new();
    let mut i: usize = 0;
    let mut word: usize = 0;
    let mut address: usize = 0;
    assert(fields@.take(0) =~= Seq::empty());
    while i < fields.len()
        invariant
            i <= fields@.len(),
            words@ == words_in(fields@),
            addresses@ == addresses_in(fields@),
            low@ == block(word_fields(words@), order),
            high@ == block(address_fields(addresses@), order),
            low_len == low@.len(),
            high_len == high@.len(),
            word == words_in(fields@.take(i as int)).len(),
            address == addresses_in(fields@.take(i as int)).len(),
            out@ == block(fields@.take(i as int), order),
        decreases fields.len() - i,
    {
        proof {
            let next = fields@.take(i + 1);
            assert(next.drop_last() =~= fields@.take(i as int));
            assert(next.last() == fields@[i as int]);
            lemma_front(fields@, i + 1);
        }
        match fields[i] {
            Field::Word(w) => {
                proof {
                    assert(words_in(fields@.take(i + 1))[word as int] == w);
                    lemma_piece(word_fields(words@), 4, order, word as int);
                }
                append(&mut out, &low, 4 * word, 4 * word + 4);
                word = word + 1;
            }
            Field::Address(a) => {
                proof {
                    assert(addresses_in(fields@.take(i + 1))[address as int] == a);
                    lemma_piece(address_fields(addresses@), 8, order, address as int);
                }
                append(&mut out, &high, 8 * address, 8 * address + 8);
                address = address + 1;
            }
        }
        i = i + 1;
    }
    assert(fields@.take(i as int) =~= fields@);
    proof {
        lemma_block_len(fields@, order);
    }
    out
}

/// The bytes of a list of words.
pub fn encode_words(words: &[u32]) -> (r: Vec<u8>)
    ensures
        encodes(r@, word_fields(words@)),
        r@.len() == 4 * words@.len(),
{
    let mut fields: Vec<Field> = Vec::new();
    let mut i: usize = 0;
    while i < words.len()
        invariant
            i <= words@.len(),
            fields@ =~= word_fields(words@.take(i as int)),
        decreases words.len() - i,
    {
        fields.push(Field::Word(words[i]));
        i = i + 1;
    }
    assert(fields@ =~= word_fields(words@));
    proof {
        lemma_uniform_len(fields@, 4, false);
    }
    encode(&fields)
}

impl MatmulPushConstants {
    /// The fields in memory order.
    pub open spec fn layout(self) -> Seq<Field> {
        seq![
            Field::Word(self.m),
            Field::Word(self.n),
            Field::Word(self.k),
            Field::Word(self.batch_stride_a),
            Field::Word(self.batch_stride_b),
            Field::Word(self.batch_stride_c),
            Field::Word(self.flags),
            Field::Word(self.alpha.bits),
            Field::Address(self.a_ptr),
            Field::Address(self.b_ptr),
            Field::Address(self.c_ptr),
            Field::Address(self.d_ptr),
            Field::Address(self.bias_ptr),
            Field::Word(self.beta.bits),
            Field::Word(self.bias_batch_stride),
            Field::Word(self.store_pos_base),
            Field::Word(self.store_pos_scale),
            Field::Word(self.store_stride_head),
            Field::Word(self.store_stride_dim),
            Field::Word(self.store_head_dim),
            Field::Word(0),
            Field::Address(self.store_pos_ptr),
            Field::Address(self.store_table_ptr),
            Field::Address(self.store_dst_ptr),
        ]
    }

    /// The fields in memory order: 128 bytes.
    pub fn fields(&self) -> (r: Vec<Field>)
        ensures
            r@ == self.layout(),
            layout_bytes(r@) == 128,
    {
        let fields: Vec<Field> = vec![
            Field::Word(self.m),
            Field::Word(self.n),
            Field::Word(self.k),
            Field::Word(self.batch_stride_a),
            Field::Word(self.batch_stride_b),
            Field::Word(self.batch_stride_c),
            Field::Word(self.flags),
            Field::Word(self.alpha.bits),
            Field::Address(self.a_ptr),
            Field::Address(self.b_ptr),
            Field::Address(self.c_ptr),
            Field::Address(self.d_ptr),
            Field::Address(self.bias_ptr),
            Field::Word(self.beta.bits),
            Field::Word(self.bias_batch_stride),
            Field::Word(self.store_pos_base),
            Field::Word(self.store_pos_scale),
            Field::Word(self.store_stride_head),
            Field::Word(self.store_stride_dim),
            Field::Word(self.store_head_dim),
            Field::Word(0),
            Field::Address(self.store_pos_ptr),
            Field::Address(self.store_table_ptr),
            Field::Address(self.store_dst_ptr),
        ];
        assert(fields@ =~= self.layout());
        proof {
            reveal_with_fuel(layout_bytes, 25);
        }
        fields
    }

    /// The block as the shader reads it, in the machine's byte order.
    pub fn bytes(&self) -> (r: Vec<u8>)
        ensures
            encodes(r@, self.layout()),
            r@.len() == 128,
    {
        encode(&self.fields())
    }
}

impl SplitK2ReducePushConstants {
    /// The fields in memory order.
    pub open spec fn layout(self) -> Seq<Field> {
        seq![
            Field::Word(self.total),
            Field::Word(self.mn),
            Field::Word(self.num_splits),
            Field::Word(self.pad),
            Field::Address(self.scratch_ptr),
            Field::Address(self.c_ptr),
        ]
    }

    /// The fields in memory order: 32 bytes.
    pub fn fields(&self) -> (r: Vec<Field>)
        ensures
            r@ == self.layout(),
            layout_bytes(r@) == 32,
    {
        let fields: Vec<Field> = vec![
            Field::Word(self.total),
            Field::Word(self.mn),
            Field::Word(self.num_splits),
            Field::Word(self.pad),
            Field::Address(self.scratch_ptr),
            Field::Address(self.c_ptr),
        ];
        assert(fields@ =~= self.layout());
        proof {
            reveal_with_fuel(layout_bytes, 7);
        }
        fields
    }

    /// The block as the shader reads it, in the machine's byte order.
    pub fn bytes(&self) -> (r: Vec<u8>)
        ensures
            encodes(r@, self.layout()),
            r@.len() == 32,
    {
        encode(&self.fields())
    }
}

impl StreamKPushConstants {
    /// The fields in memory order.
    pub open spec fn layout(self) -> Seq<Field> {
        seq![
            Field::Word(self.m),
            Field::Word(self.n),
            Field::Word(self.k),
            Field::Word(self.batch_stride_a),
            Field::Word(self.batch_stride_b),
            Field::Word(self.batch_stride_c),
            Field::Word(self.flags),
            Field::Word(self.alpha.bits),
            Field::Address(self.a_ptr),
            Field::Address(self.b_ptr),
            Field::Address(self.c_ptr),
            Field::Word(self.iters_per_tile),
            Field::Word(self.iters_per_wg_sk),
            Field::Word(self.rem_sk),
            Field::Word(self.n_tiles),
            Field::Word(self.dp_tiles_total),
            Field::Word(self.g_sk),
            Field::Word(self.total_iters_sk),
            Field::Word(self.pad),
        ]
    }

    /// The fields in memory order: 88 bytes.
    pub fn fields(&self) -> (r: Vec<Field>)
        ensures
            r@ == self.layout(),
            layout_bytes(r@) == 88,
    {
        let fields: Vec<Field> = vec![
            Field::Word(self.m),
            Field::Word(self.n),
            Field::Word(self.k),
            Field::Word(self.batch_stride_a),
            Field::Word(self.batch_stride_b),
            Field::Word(self.batch_stride_c),
            Field::Word(self.flags),
            Field::Word(self.alpha.bits),
            Field::Address(self.a_ptr),
            Field::Address(self.b_ptr),
            Field::Address(self.c_ptr),
            Field::Word(self.iters_per_tile),
            Field::Word(self.iters_per_wg_sk),
            Field::Word(self.rem_sk),
            Field::Word(self.n_tiles),
            Field::Word(self.dp_tiles_total),
            Field::Word(self.g_sk),
            Field::Word(self.total_iters_sk),
            Field::Word(self.pad),
        ];
        assert(fields@ =~= self.layout());
        proof {
            reveal_with_fuel(layout_bytes, 20);
        }
        fields
    }

    /// The block as the shader reads it, in the machine's byte order.
    pub fn bytes(&self) -> (r: Vec<u8>)
        ensures
            encodes(r@, self.layout()),
            r@.len() == 88,
    {
        encode(&self.fields())
    }
}

impl PersistentPushConstants {
    /// The fields in memory order.
    pub open spec fn layout(self) -> Seq<Field> {
        seq![
            Field::Word(self.m),
            Field::Word(self.n),
            Field::Word(self.k),
            Field::Word(self.batch_stride_a),
            Field::Word(self.batch_stride_b),
            Field::Word(self.batch_stride_c),
            Field::Word(self.flags),
            Field::Word(self.alpha.bits),
            Field::Address(self.a_ptr),
            Field::Address(self.b_ptr),
            Field::Address(self.c_ptr),
            Field::Address(self.counter_ptr),
            Field::Word(self.grid_x),
            Field::Word(self.grid_y),
            Field::Word(self.num_tiles),
            Field::Word(self.pad),
        ]
    }

    /// The fields in memory order: 80 bytes.
    pub fn fields(&self) -> (r: Vec<Field>)
        ensures
            r@ == self.layout(),
            layout_bytes(r@) == 80,
    {
        let fields: Vec<Field> = vec![
            Field::Word(self.m),
            Field::Word(self.n),
            Field::Word(self.k),
            Field::Word(self.batch_stride_a),
            Field::Word(self.batch_stride_b),
            Field::Word(self.batch_stride_c),
            Field::Word(self.flags),
            Field::Word(self.alpha.bits),
            Field::Address(self.a_ptr),
            Field::Address(self.b_ptr),
            Field::Address(self.c_ptr),
            Field::Address(self.counter_ptr),
            Field::Word(self.grid_x),
            Field::Word(self.grid_y),
            Field::Word(self.num_tiles),
            Field::Word(self.pad),
        ];
        assert(fields@ =~= self.layout());
        proof {
            reveal_with_fuel(layout_bytes, 17);
        }
        fields
    }

    /// The block as the shader reads it, in the machine's byte order.
    pub fn bytes(&self) -> (r: Vec<u8>)
        ensures
            encodes(r@, self.layout()),
            r@.len() == 80,
    {
        encode(&self.fields())
    }
}

} // verus!
