//! The registry's names are words and tell the kernels apart, so that a
//! stored winner is found again.

use crate::pipeline::catalog::{KernelSelection, KERNEL_COUNT};
use crate::pipeline::tuning::position_from;
use crate::text::is_word;
use vstd::prelude::*;

verus! {

/// Every kernel name is a single word.
pub proof fn kernel_name_is_word(selection: KernelSelection)
    ensures
        is_word(selection.spec_of().name@),
        forall|i: int| 0 <= i < selection.spec_of().name@.len() ==> #[trigger] selection.spec_of().name@[i] != '\n',
        forall|i: int| 0 <= i < selection.spec_of().name@.len() ==> #[trigger] selection.spec_of().name@[i] != '\r',
{
    match selection {
        KernelSelection::Auto | KernelSelection::Large => {
            reveal_strlit("large_128");
            assert(is_word("large_128"@));
        }
        KernelSelection::Small => {
            reveal_strlit("small_64");
            assert(is_word("small_64"@));
        }
        KernelSelection::M64N128 => {
            reveal_strlit("m64n128");
            assert(is_word("m64n128"@));
        }
        KernelSelection::M128N64 => {
            reveal_strlit("m128n64");
            assert(is_word("m128n64"@));
        }
        KernelSelection::M128N64K64 => {
            reveal_strlit("m128n64k64");
            assert(is_word("m128n64k64"@));
        }
        KernelSelection::M64N32 => {
            reveal_strlit("m64n32");
            assert(is_word("m64n32"@));
        }
        KernelSelection::K64 => {
            reveal_strlit("k64");
            assert(is_word("k64"@));
        }
        KernelSelection::Bk16 => {
            reveal_strlit("bk16_128x128");
            assert(is_word("bk16_128x128"@));
        }
        KernelSelection::V2 => {
            reveal_strlit("v2_128x128_bk8");
            assert(is_word("v2_128x128_bk8"@));
        }
        KernelSelection::M64N128K64 => {
            reveal_strlit("m64n128k64");
            assert(is_word("m64n128k64"@));
        }
        KernelSelection::M128N128T4 => {
            reveal_strlit("m128n128_t4");
            assert(is_word("m128n128_t4"@));
        }
        KernelSelection::M256N64 => {
            reveal_strlit("m256n64");
            assert(is_word("m256n64"@));
        }
        KernelSelection::V3 => {
            reveal_strlit("v3_128x128_bk8_static");
            assert(is_word("v3_128x128_bk8_static"@));
        }
        KernelSelection::LargeBda => {
            reveal_strlit("large_bda");
            assert(is_word("large_bda"@));
        }
        KernelSelection::M128N64K64Bda => {
            reveal_strlit("m128n64k64_bda");
            assert(is_word("m128n64k64_bda"@));
        }
        KernelSelection::K64Bda => {
            reveal_strlit("k64_bda");
            assert(is_word("k64_bda"@));
        }
        KernelSelection::SmallBda => {
            reveal_strlit("small_bda");
            assert(is_word("small_bda"@));
        }
        KernelSelection::M64N32Bda => {
            reveal_strlit("m64n32_bda");
            assert(is_word("m64n32_bda"@));
        }
        KernelSelection::M128N64Bda => {
            reveal_strlit("m128n64_bda");
            assert(is_word("m128n64_bda"@));
        }
        KernelSelection::M64N128Bda => {
            reveal_strlit("m64n128_bda");
            assert(is_word("m64n128_bda"@));
        }
        KernelSelection::LargeBdaV4 => {
            reveal_strlit("large_bda_v4");
            assert(is_word("large_bda_v4"@));
        }
        KernelSelection::M128N64K64BdaV4 => {
            reveal_strlit("m128n64k64_bda_v4");
            assert(is_word("m128n64k64_bda_v4"@));
        }
        KernelSelection::SmallBdaV4 => {
            reveal_strlit("small_bda_v4");
            assert(is_word("small_bda_v4"@));
        }
        KernelSelection::K64BdaV4 => {
            reveal_strlit("k64_bda_v4");
            assert(is_word("k64_bda_v4"@));
        }
        KernelSelection::M128N64BdaV4 => {
            reveal_strlit("m128n64_bda_v4");
            assert(is_word("m128n64_bda_v4"@));
        }
        KernelSelection::M64N128BdaV4 => {
            reveal_strlit("m64n128_bda_v4");
            assert(is_word("m64n128_bda_v4"@));
        }
        KernelSelection::Bk16BdaV4 => {
            reveal_strlit("bk16_bda_v4");
            assert(is_word("bk16_bda_v4"@));
        }
        KernelSelection::M128N64K64BdaV4Tm8Tn8 => {
            reveal_strlit("m128n64k64_bda_v4_tm8_tn8");
            assert(is_word("m128n64k64_bda_v4_tm8_tn8"@));
        }
        KernelSelection::M128N64K64BdaV4Tm16Tn4 => {
            reveal_strlit("m128n64k64_bda_v4_tm16_tn4");
            assert(is_word("m128n64k64_bda_v4_tm16_tn4"@));
        }
        KernelSelection::K64BdaV4Tm8Tn4 => {
            reveal_strlit("k64_bda_v4_tm8_tn4");
            assert(is_word("k64_bda_v4_tm8_tn4"@));
        }
        KernelSelection::K64BdaV4Tm4Tn8 => {
            reveal_strlit("k64_bda_v4_tm4_tn8");
            assert(is_word("k64_bda_v4_tm4_tn8"@));
        }
        KernelSelection::K64BdaV4Tm8Tn8 => {
            reveal_strlit("k64_bda_v4_tm8_tn8");
            assert(is_word("k64_bda_v4_tm8_tn8"@));
        }
        KernelSelection::LargeBdaV4Aligned => {
            reveal_strlit("large_bda_v4_aligned");
            assert(is_word("large_bda_v4_aligned"@));
        }
        KernelSelection::M128N64K64BdaV4Aligned => {
            reveal_strlit("m128n64k64_bda_v4_aligned");
            assert(is_word("m128n64k64_bda_v4_aligned"@));
        }
        KernelSelection::RowBda => {
            reveal_strlit("row_bda");
            assert(is_word("row_bda"@));
        }
        KernelSelection::ColBda => {
            reveal_strlit("col_bda");
            assert(is_word("col_bda"@));
        }
        KernelSelection::OuterBda => {
            reveal_strlit("outer_bda");
            assert(is_word("outer_bda"@));
        }
        KernelSelection::F16wLargeBdaV4 => {
            reveal_strlit("f16w_large_bda_v4");
            assert(is_word("f16w_large_bda_v4"@));
        }
        KernelSelection::F16wSmallBdaV4 => {
            reveal_strlit("f16w_small_bda_v4");
            assert(is_word("f16w_small_bda_v4"@));
        }
        KernelSelection::F16wK64BdaV4 => {
            reveal_strlit("f16w_k64_bda_v4");
            assert(is_word("f16w_k64_bda_v4"@));
        }
        KernelSelection::F16wM128N64K64BdaV4 => {
            reveal_strlit("f16w_m128n64k64_bda_v4");
            assert(is_word("f16w_m128n64k64_bda_v4"@));
        }
        KernelSelection::F16wRowBda => {
            reveal_strlit("f16w_row_bda");
            assert(is_word("f16w_row_bda"@));
        }
        KernelSelection::F16wRowBdaK16 => {
            reveal_strlit("f16w_row_bda_k16");
            assert(is_word("f16w_row_bda_k16"@));
        }
        KernelSelection::F16wRowBdaK16V2 => {
            reveal_strlit("f16w_row_bda_k16_v2");
            assert(is_word("f16w_row_bda_k16_v2"@));
        }
        KernelSelection::F16wRowBdaK16Packed => {
            reveal_strlit("f16w_row_bda_k16_packed");
            assert(is_word("f16w_row_bda_k16_packed"@));
        }
        KernelSelection::F16wRowBdaK16V2Packed => {
            reveal_strlit("f16w_row_bda_k16_v2_packed");
            assert(is_word("f16w_row_bda_k16_v2_packed"@));
        }
        KernelSelection::F16wCoopmat => {
            reveal_strlit("f16w_coopmat_aligned");
            assert(is_word("f16w_coopmat_aligned"@));
        }
        KernelSelection::F16wCoopmatM64 => {
            reveal_strlit("f16w_coopmat_m64");
            assert(is_word("f16w_coopmat_m64"@));
        }
        KernelSelection::F16wCoopmatM64N128 => {
            reveal_strlit("f16w_coopmat_m64n128");
            assert(is_word("f16w_coopmat_m64n128"@));
        }
        KernelSelection::F16wCoopmatM128N64 => {
            reveal_strlit("f16w_coopmat_m128n64");
            assert(is_word("f16w_coopmat_m128n64"@));
        }
        KernelSelection::F16wA16Coopmat => {
            reveal_strlit("f16w_a16_coopmat_aligned");
            assert(is_word("f16w_a16_coopmat_aligned"@));
        }
        KernelSelection::F16wA16CoopmatM64 => {
            reveal_strlit("f16w_a16_coopmat_m64");
            assert(is_word("f16w_a16_coopmat_m64"@));
        }
        KernelSelection::F16wA16CoopmatM64N128 => {
            reveal_strlit("f16w_a16_coopmat_m64n128");
            assert(is_word("f16w_a16_coopmat_m64n128"@));
        }
        KernelSelection::F16wA16CoopmatM128N64 => {
            reveal_strlit("f16w_a16_coopmat_m128n64");
            assert(is_word("f16w_a16_coopmat_m128n64"@));
        }
        KernelSelection::F16wCm2 => {
            reveal_strlit("f16w_cm2");
            assert(is_word("f16w_cm2"@));
        }
    }
}

/// The number of a name, by comparing it with every name of the registry.
spec fn number_of_name(name: Seq<char>) -> int {
    if name == "large_128"@ { 0 }
    else if name == "small_64"@ { 1 }
    else if name == "m64n128"@ { 2 }
    else if name == "m128n64"@ { 3 }
    else if name == "m128n64k64"@ { 4 }
    else if name == "m64n32"@ { 5 }
    else if name == "k64"@ { 6 }
    else if name == "bk16_128x128"@ { 7 }
    else if name == "v2_128x128_bk8"@ { 8 }
    else if name == "m64n128k64"@ { 9 }
    else if name == "m128n128_t4"@ { 10 }
    else if name == "m256n64"@ { 11 }
    else if name == "v3_128x128_bk8_static"@ { 12 }
    else if name == "large_bda"@ { 13 }
    else if name == "m128n64k64_bda"@ { 14 }
    else if name == "k64_bda"@ { 15 }
    else if name == "small_bda"@ { 16 }
    else if name == "m64n32_bda"@ { 17 }
    else if name == "m128n64_bda"@ { 18 }
    else if name == "m64n128_bda"@ { 19 }
    else if name == "large_bda_v4"@ { 20 }
    else if name == "m128n64k64_bda_v4"@ { 21 }
    else if name == "small_bda_v4"@ { 22 }
    else if name == "k64_bda_v4"@ { 23 }
    else if name == "m128n64_bda_v4"@ { 24 }
    else if name == "m64n128_bda_v4"@ { 25 }
    else if name == "bk16_bda_v4"@ { 26 }
    else if name == "m128n64k64_bda_v4_tm8_tn8"@ { 27 }
    else if name == "m128n64k64_bda_v4_tm16_tn4"@ { 28 }
    else if name == "k64_bda_v4_tm8_tn4"@ { 29 }
    else if name == "k64_bda_v4_tm4_tn8"@ { 30 }
    else if name == "k64_bda_v4_tm8_tn8"@ { 31 }
    else if name == "large_bda_v4_aligned"@ { 32 }
    else if name == "m128n64k64_bda_v4_aligned"@ { 33 }
    else if name == "row_bda"@ { 34 }
    else if name == "col_bda"@ { 35 }
    else if name == "outer_bda"@ { 36 }
    else if name == "f16w_large_bda_v4"@ { 37 }
    else if name == "f16w_small_bda_v4"@ { 38 }
    else if name == "f16w_k64_bda_v4"@ { 39 }
    else if name == "f16w_m128n64k64_bda_v4"@ { 40 }
    else if name == "f16w_row_bda"@ { 41 }
    else if name == "f16w_row_bda_k16"@ { 42 }
    else if name == "f16w_row_bda_k16_v2"@ { 43 }
    else if name == "f16w_row_bda_k16_packed"@ { 44 }
    else if name == "f16w_row_bda_k16_v2_packed"@ { 45 }
    else if name == "f16w_coopmat_aligned"@ { 46 }
    else if name == "f16w_coopmat_m64"@ { 47 }
    else if name == "f16w_coopmat_m64n128"@ { 48 }
    else if name == "f16w_coopmat_m128n64"@ { 49 }
    else if name == "f16w_a16_coopmat_aligned"@ { 50 }
    else if name == "f16w_a16_coopmat_m64"@ { 51 }
    else if name == "f16w_a16_coopmat_m64n128"@ { 52 }
    else if name == "f16w_a16_coopmat_m128n64"@ { 53 }
    else if name == "f16w_cm2"@ { 54 }
    else { -1 }
}

proof fn lemma_number_of_name(idx: int)
    requires
        0 <= idx < KERNEL_COUNT,
    ensures
        number_of_name(KernelSelection::of_index(idx).spec_of().name@) == idx,
{
    reveal_strlit("large_128");
    reveal_strlit("small_64");
    reveal_strlit("m64n128");
    reveal_strlit("m128n64");
    reveal_strlit("m128n64k64");
    reveal_strlit("m64n32");
    reveal_strlit("k64");
    reveal_strlit("bk16_128x128");
    reveal_strlit("v2_128x128_bk8");
    reveal_strlit("m64n128k64");
    reveal_strlit("m128n128_t4");
    reveal_strlit("m256n64");
    reveal_strlit("v3_128x128_bk8_static");
    reveal_strlit("large_bda");
    reveal_strlit("m128n64k64_bda");
    reveal_strlit("k64_bda");
    reveal_strlit("small_bda");
    reveal_strlit("m64n32_bda");
    reveal_strlit("m128n64_bda");
    reveal_strlit("m64n128_bda");
    reveal_strlit("large_bda_v4");
    reveal_strlit("m128n64k64_bda_v4");
    reveal_strlit("small_bda_v4");
    reveal_strlit("k64_bda_v4");
    reveal_strlit("m128n64_bda_v4");
    reveal_strlit("m64n128_bda_v4");
    reveal_strlit("bk16_bda_v4");
    reveal_strlit("m128n64k64_bda_v4_tm8_tn8");
    reveal_strlit("m128n64k64_bda_v4_tm16_tn4");
    reveal_strlit("k64_bda_v4_tm8_tn4");
    reveal_strlit("k64_bda_v4_tm4_tn8");
    reveal_strlit("k64_bda_v4_tm8_tn8");
    reveal_strlit("large_bda_v4_aligned");
    reveal_strlit("m128n64k64_bda_v4_aligned");
    reveal_strlit("row_bda");
    reveal_strlit("col_bda");
    reveal_strlit("outer_bda");
    reveal_strlit("f16w_large_bda_v4");
    reveal_strlit("f16w_small_bda_v4");
    reveal_strlit("f16w_k64_bda_v4");
    reveal_strlit("f16w_m128n64k64_bda_v4");
    reveal_strlit("f16w_row_bda");
    reveal_strlit("f16w_row_bda_k16");
    reveal_strlit("f16w_row_bda_k16_v2");
    reveal_strlit("f16w_row_bda_k16_packed");
    reveal_strlit("f16w_row_bda_k16_v2_packed");
    reveal_strlit("f16w_coopmat_aligned");
    reveal_strlit("f16w_coopmat_m64");
    reveal_strlit("f16w_coopmat_m64n128");
    reveal_strlit("f16w_coopmat_m128n64");
    reveal_strlit("f16w_a16_coopmat_aligned");
    reveal_strlit("f16w_a16_coopmat_m64");
    reveal_strlit("f16w_a16_coopmat_m64n128");
    reveal_strlit("f16w_a16_coopmat_m128n64");
    reveal_strlit("f16w_cm2");
    assert("large_128"@.len() == 9);
    assert("small_64"@.len() == 8);
    assert("m64n128"@.len() == 7);
    assert("m128n64"@.len() == 7);
    assert("m128n64k64"@.len() == 10);
    assert("m64n32"@.len() == 6);
    assert("k64"@.len() == 3);
    assert("bk16_128x128"@.len() == 12);
    assert("v2_128x128_bk8"@.len() == 14);
    assert("m64n128k64"@.len() == 10);
    assert("m128n128_t4"@.len() == 11);
    assert("m256n64"@.len() == 7);
    assert("v3_128x128_bk8_static"@.len() == 21);
    assert("large_bda"@.len() == 9);
    assert("m128n64k64_bda"@.len() == 14);
    assert("k64_bda"@.len() == 7);
    assert("small_bda"@.len() == 9);
    assert("m64n32_bda"@.len() == 10);
    assert("m128n64_bda"@.len() == 11);
    assert("m64n128_bda"@.len() == 11);
    assert("large_bda_v4"@.len() == 12);
    assert("m128n64k64_bda_v4"@.len() == 17);
    assert("small_bda_v4"@.len() == 12);
    assert("k64_bda_v4"@.len() == 10);
    assert("m128n64_bda_v4"@.len() == 14);
    assert("m64n128_bda_v4"@.len() == 14);
    assert("bk16_bda_v4"@.len() == 11);
    assert("m128n64k64_bda_v4_tm8_tn8"@.len() == 25);
    assert("m128n64k64_bda_v4_tm16_tn4"@.len() == 26);
    assert("k64_bda_v4_tm8_tn4"@.len() == 18);
    assert("k64_bda_v4_tm4_tn8"@.len() == 18);
    assert("k64_bda_v4_tm8_tn8"@.len() == 18);
    assert("large_bda_v4_aligned"@.len() == 20);
    assert("m128n64k64_bda_v4_aligned"@.len() == 25);
    assert("row_bda"@.len() == 7);
    assert("col_bda"@.len() == 7);
    assert("outer_bda"@.len() == 9);
    assert("f16w_large_bda_v4"@.len() == 17);
    assert("f16w_small_bda_v4"@.len() == 17);
    assert("f16w_k64_bda_v4"@.len() == 15);
    assert("f16w_m128n64k64_bda_v4"@.len() == 22);
    assert("f16w_row_bda"@.len() == 12);
    assert("f16w_row_bda_k16"@.len() == 16);
    assert("f16w_row_bda_k16_v2"@.len() == 19);
    assert("f16w_row_bda_k16_packed"@.len() == 23);
    assert("f16w_row_bda_k16_v2_packed"@.len() == 26);
    assert("f16w_coopmat_aligned"@.len() == 20);
    assert("f16w_coopmat_m64"@.len() == 16);
    assert("f16w_coopmat_m64n128"@.len() == 20);
    assert("f16w_coopmat_m128n64"@.len() == 20);
    assert("f16w_a16_coopmat_aligned"@.len() == 24);
    assert("f16w_a16_coopmat_m64"@.len() == 20);
    assert("f16w_a16_coopmat_m64n128"@.len() == 24);
    assert("f16w_a16_coopmat_m128n64"@.len() == 24);
    assert("f16w_cm2"@.len() == 8);
    assert("large_128"@[6] != "large_bda"@[6]);
    assert("large_128"@[0] != "small_bda"@[0]);
    assert("large_128"@[0] != "outer_bda"@[0]);
    assert("small_64"@[0] != "f16w_cm2"@[0]);
    assert("m64n128"@[1] != "m128n64"@[1]);
    assert("m64n128"@[1] != "m256n64"@[1]);
    assert("m64n128"@[0] != "k64_bda"@[0]);
    assert("m64n128"@[0] != "row_bda"@[0]);
    assert("m64n128"@[0] != "col_bda"@[0]);
    assert("m128n64"@[1] != "m256n64"@[1]);
    assert("m128n64"@[0] != "k64_bda"@[0]);
    assert("m128n64"@[0] != "row_bda"@[0]);
    assert("m128n64"@[0] != "col_bda"@[0]);
    assert("m128n64k64"@[1] != "m64n128k64"@[1]);
    assert("m128n64k64"@[1] != "m64n32_bda"@[1]);
    assert("m128n64k64"@[0] != "k64_bda_v4"@[0]);
    assert("bk16_128x128"@[0] != "large_bda_v4"@[0]);
    assert("bk16_128x128"@[0] != "small_bda_v4"@[0]);
    assert("bk16_128x128"@[0] != "f16w_row_bda"@[0]);
    assert("v2_128x128_bk8"@[0] != "m128n64k64_bda"@[0]);
    assert("v2_128x128_bk8"@[0] != "m128n64_bda_v4"@[0]);
    assert("v2_128x128_bk8"@[0] != "m64n128_bda_v4"@[0]);
    assert("m64n128k64"@[4] != "m64n32_bda"@[4]);
    assert("m64n128k64"@[0] != "k64_bda_v4"@[0]);
    assert("m128n128_t4"@[5] != "m128n64_bda"@[5]);
    assert("m128n128_t4"@[1] != "m64n128_bda"@[1]);
    assert("m128n128_t4"@[0] != "bk16_bda_v4"@[0]);
    assert("m256n64"@[0] != "k64_bda"@[0]);
    assert("m256n64"@[0] != "row_bda"@[0]);
    assert("m256n64"@[0] != "col_bda"@[0]);
    assert("large_bda"@[0] != "small_bda"@[0]);
    assert("large_bda"@[0] != "outer_bda"@[0]);
    assert("m128n64k64_bda"@[7] != "m128n64_bda_v4"@[7]);
    assert("m128n64k64_bda"@[1] != "m64n128_bda_v4"@[1]);
    assert("k64_bda"@[0] != "row_bda"@[0]);
    assert("k64_bda"@[0] != "col_bda"@[0]);
    assert("small_bda"@[0] != "outer_bda"@[0]);
    assert("m64n32_bda"@[0] != "k64_bda_v4"@[0]);
    assert("m128n64_bda"@[1] != "m64n128_bda"@[1]);
    assert("m128n64_bda"@[0] != "bk16_bda_v4"@[0]);
    assert("m64n128_bda"@[0] != "bk16_bda_v4"@[0]);
    assert("large_bda_v4"@[0] != "small_bda_v4"@[0]);
    assert("large_bda_v4"@[0] != "f16w_row_bda"@[0]);
    assert("m128n64k64_bda_v4"@[0] != "f16w_large_bda_v4"@[0]);
    assert("m128n64k64_bda_v4"@[0] != "f16w_small_bda_v4"@[0]);
    assert("small_bda_v4"@[0] != "f16w_row_bda"@[0]);
    assert("m128n64_bda_v4"@[1] != "m64n128_bda_v4"@[1]);
    assert("m128n64k64_bda_v4_tm8_tn8"@[18] != "m128n64k64_bda_v4_aligned"@[18]);
    assert("m128n64k64_bda_v4_tm16_tn4"@[0] != "f16w_row_bda_k16_v2_packed"@[0]);
    assert("k64_bda_v4_tm8_tn4"@[13] != "k64_bda_v4_tm4_tn8"@[13]);
    assert("k64_bda_v4_tm8_tn4"@[17] != "k64_bda_v4_tm8_tn8"@[17]);
    assert("k64_bda_v4_tm4_tn8"@[13] != "k64_bda_v4_tm8_tn8"@[13]);
    assert("large_bda_v4_aligned"@[0] != "f16w_coopmat_aligned"@[0]);
    assert("large_bda_v4_aligned"@[0] != "f16w_coopmat_m64n128"@[0]);
    assert("large_bda_v4_aligned"@[0] != "f16w_coopmat_m128n64"@[0]);
    assert("large_bda_v4_aligned"@[0] != "f16w_a16_coopmat_m64"@[0]);
    assert("row_bda"@[0] != "col_bda"@[0]);
    assert("f16w_large_bda_v4"@[5] != "f16w_small_bda_v4"@[5]);
    assert("f16w_row_bda_k16"@[5] != "f16w_coopmat_m64"@[5]);
    assert("f16w_coopmat_aligned"@[13] != "f16w_coopmat_m64n128"@[13]);
    assert("f16w_coopmat_aligned"@[13] != "f16w_coopmat_m128n64"@[13]);
    assert("f16w_coopmat_aligned"@[5] != "f16w_a16_coopmat_m64"@[5]);
    assert("f16w_coopmat_m64n128"@[14] != "f16w_coopmat_m128n64"@[14]);
    assert("f16w_coopmat_m64n128"@[5] != "f16w_a16_coopmat_m64"@[5]);
    assert("f16w_coopmat_m128n64"@[5] != "f16w_a16_coopmat_m64"@[5]);
    assert("f16w_a16_coopmat_aligned"@[17] != "f16w_a16_coopmat_m64n128"@[17]);
    assert("f16w_a16_coopmat_aligned"@[17] != "f16w_a16_coopmat_m128n64"@[17]);
    assert("f16w_a16_coopmat_m64n128"@[18] != "f16w_a16_coopmat_m128n64"@[18]);
}

/// No two kernels of the registry have the same name.
pub proof fn registry_names_are_unique(i: int, j: int)
    requires
        0 <= i < KERNEL_COUNT,
        0 <= j < KERNEL_COUNT,
        KernelSelection::of_index(i).spec_of().name@ == KernelSelection::of_index(j).spec_of().name@,
    ensures
        i == j,
{
    lemma_number_of_name(i);
    lemma_number_of_name(j);
}

/// Looking a kernel up by its name finds it.
pub proof fn registry_lookup_finds_kernel(idx: int, from: int)
    requires
        0 <= from <= idx < KERNEL_COUNT,
    ensures
        position_from(KernelSelection::of_index(idx).spec_of().name@, from) == Some(idx as usize),
    decreases idx - from,
{
    if from < idx {
        if KernelSelection::of_index(from).spec_of().name@ == KernelSelection::of_index(
            idx,
        ).spec_of().name@ {
            registry_names_are_unique(from, idx);
        }
        registry_lookup_finds_kernel(idx, from + 1);
    }
}

} // verus!
