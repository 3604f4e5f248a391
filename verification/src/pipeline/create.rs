//! What goes into building a compute pipeline: shader words and
//! specialization constants.

use crate::pipeline::abi::{EpilogueKey, KernelVariant};
use crate::pipeline::catalog::KernelSpec;
use crate::push::{encode_words, encodes, word_fields};
use vstd::prelude::*;

verus! {

/// The 32-bit number whose little-endian bytes are these.
pub open spec fn le_word(b0: u8, b1: u8, b2: u8, b3: u8) -> u32 {
    (b0 + b1 * 0x100 + b2 * 0x1_0000 + b3 * 0x100_0000) as u32
}

/// The words of a compiled shader, whose file is little-endian.
pub fn spirv_words(spv: &[u8]) -> (r: Vec<u32>)
    requires
        spv@.len() % 4 == 0,
    ensures
        r@.len() * 4 == spv@.len(),
        forall|i: int| 0 <= i < r@.len() ==> #[trigger] r@[i] == le_word(
            spv@[4 * i],
            spv@[4 * i + 1],
            spv@[4 * i + 2],
            spv@[4 * i + 3],
        ),
{
    let mut words: Vec<u32> = Vec::new();
    let mut at: usize = 0;
    while at < spv.len()
        invariant
            spv@.len() % 4 == 0,
            at <= spv@.len(),
            at == 4 * words@.len(),
            forall|i: int| 0 <= i < words@.len() ==> #[trigger] words@[i] == le_word(
                spv@[4 * i],
                spv@[4 * i + 1],
                spv@[4 * i + 2],
                spv@[4 * i + 3],
            ),
        decreases spv.len() - at,
    {
        words.push(
            spv[at] as u32 + spv[at + 1] as u32 * 0x100 + spv[at + 2] as u32 * 0x1_0000 + spv[at
                + 3] as u32 * 0x100_0000,
        );
        at = at + 4;
    }
    words
}

/// One entry of a specialization map.
#[derive(Copy, Clone, Debug, PartialEq, Eq, Structural)]
pub struct SpecMapEntry {
    pub constant_id: u32,
    pub offset: u32,
    pub size: u32,
}

/// A map for `n` 32-bit specialization constants: id `i` at offset `4 * i`.
pub fn spec_map_entries(n: u32) -> (r: Vec<SpecMapEntry>)
    requires
        n <= 0x3FFF_FFFF,
    ensures
        r@.len() == n,
        forall|i: int| 0 <= i < n ==> #[trigger] r@[i] == (SpecMapEntry {
            constant_id: i as u32,
            offset: (4 * i) as u32,
            size: 4,
        }),
{
    let mut entries: Vec<SpecMapEntry> = Vec::new();
    let mut i: u32 = 0;
    while i < n
        invariant
            n <= 0x3FFF_FFFF,
            i <= n,
            entries@.len() == i,
            forall|j: int| 0 <= j < i ==> #[trigger] entries@[j] == (SpecMapEntry {
                constant_id: j as u32,
                offset: (4 * j) as u32,
                size: 4,
            }),
        decreases n - i,
    {
        entries.push(SpecMapEntry { constant_id: i, offset: 4 * i, size: 4 });
        i = i + 1;
    }
    entries
}

/// A flag as a specialization constant.
pub open spec fn flag(b: bool) -> u32 {
    if b { 1 } else { 0 }
}

fn flag_value(b: bool) -> (r: u32)
    ensures
        r == flag(b),
{
    if b { 1 } else { 0 }
}

/// The specialization constants that every kernel has.
pub open spec fn variant_constants(variant: KernelVariant) -> Seq<u32> {
    seq![
        flag(variant.accumulate),
        flag(variant.alpha_is_one),
        flag(variant.interior_only),
        flag(variant.k_multiple),
    ]
}

/// The specialization constants of a kernel: the variant's, then the
/// epilogue's where its shader fuses one, then the store's where its shader
/// fuses that.
pub open spec fn kernel_constants(
    kernel: KernelSpec,
    variant: KernelVariant,
    epilogue: EpilogueKey,
) -> Seq<u32> {
    let base = variant_constants(variant);
    let fused = if kernel.fuses_epilogue() {
        base + seq![flag(epilogue.bias), epilogue.activation, epilogue.binary]
    } else {
        base
    };
    if kernel.fuses_epilogue() && kernel.fuses_store() {
        fused + seq![epilogue.store_mode, flag(epilogue.store_f16)]
    } else {
        fused
    }
}

/// The specialization constants of the pipeline for a kernel, a variant and
/// an epilogue.
pub fn specialization_constants(
    kernel: &KernelSpec,
    variant: KernelVariant,
    epilogue: EpilogueKey,
) -> (r: Vec<u32>)
    ensures
        r@ == kernel_constants(*kernel, variant, epilogue),
{
    let mut data: Vec<u32> = fallback_constants(variant);
    if kernel.supports_epilogue() {
        data.push(flag_value(epilogue.bias));
        data.push(epilogue.activation);
        data.push(epilogue.binary);
        assert(data@ =~= variant_constants(variant) + seq![
            flag(epilogue.bias),
            epilogue.activation,
            epilogue.binary,
        ]);
        if kernel.supports_store() {
            data.push(epilogue.store_mode);
            data.push(flag_value(epilogue.store_f16));
        }
    }
    assert(data@ =~= kernel_constants(*kernel, variant, epilogue));
    data
}

/// The specialization constants of an eagerly built pipeline.
pub fn fallback_constants(variant: KernelVariant) -> (r: Vec<u32>)
    ensures
        r@ == variant_constants(variant),
{
    let mut data: Vec<u32> = Vec::new();
    data.push(flag_value(variant.accumulate));
    data.push(flag_value(variant.alpha_is_one));
    data.push(flag_value(variant.interior_only));
    data.push(flag_value(variant.k_multiple));
    assert(data@ =~= variant_constants(variant));
    data
}

/// The data behind a specialization map: the constants of a kernel as bytes,
/// in the machine's byte order.
pub fn specialization_data(
    kernel: &KernelSpec,
    variant: KernelVariant,
    epilogue: EpilogueKey,
) -> (r: Vec<u8>)
    ensures
        encodes(r@, word_fields(kernel_constants(*kernel, variant, epilogue))),
        r@.len() == 4 * kernel_constants(*kernel, variant, epilogue).len(),
{
    let words: Vec<u32> = specialization_constants(kernel, variant, epilogue);
    encode_words(&words)
}

/// The eagerly built pipeline that serves a variant until its exact one is
/// built.
pub fn eager_slot(variant: KernelVariant) -> (r: usize)
    ensures
        r == variant.without_alignment().index_of(),
        r < KernelVariant::FALLBACK_COUNT,
{
    variant.fallback().index()
}

} // verus!
