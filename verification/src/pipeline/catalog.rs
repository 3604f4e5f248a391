//! The kernel registry: every matmul kernel, what it is called and how it
//! tiles its output.

use crate::error::{outcome, refused_name, Error, ErrorView, Refusal};
use crate::text::{
    ascii_lower, contains, ends_with, normalized, same_text, starts_with, text_contains,
    text_ends_with, text_starts_with, trimmed,
};
use vstd::prelude::*;

verus! {

/// Number of kernels in the registry.
pub const KERNEL_COUNT: usize = 55;

/// Which kernel a pipeline uses: a fixed one, or the one that suits each
/// shape.
#[derive(Copy, Clone, Debug, PartialEq, Eq, Structural)]
pub enum KernelSelection {
    Auto,
    Large,
    Small,
    M64N128,
    M128N64,
    M128N64K64,
    M64N32,
    K64,
    Bk16,
    V2,
    M64N128K64,
    M128N128T4,
    M256N64,
    V3,
    LargeBda,
    M128N64K64Bda,
    K64Bda,
    SmallBda,
    M64N32Bda,
    M128N64Bda,
    M64N128Bda,
    LargeBdaV4,
    M128N64K64BdaV4,
    SmallBdaV4,
    K64BdaV4,
    M128N64BdaV4,
    M64N128BdaV4,
    Bk16BdaV4,
    M128N64K64BdaV4Tm8Tn8,
    M128N64K64BdaV4Tm16Tn4,
    K64BdaV4Tm8Tn4,
    K64BdaV4Tm4Tn8,
    K64BdaV4Tm8Tn8,
    LargeBdaV4Aligned,
    M128N64K64BdaV4Aligned,
    RowBda,
    ColBda,
    OuterBda,
    F16wLargeBdaV4,
    F16wSmallBdaV4,
    F16wK64BdaV4,
    F16wM128N64K64BdaV4,
    F16wRowBda,
    F16wRowBdaK16,
    F16wRowBdaK16V2,
    F16wRowBdaK16Packed,
    F16wRowBdaK16V2Packed,
    F16wCoopmat,
    F16wCoopmatM64,
    F16wCoopmatM64N128,
    F16wCoopmatM128N64,
    F16wA16Coopmat,
    F16wA16CoopmatM64,
    F16wA16CoopmatM64N128,
    F16wA16CoopmatM128N64,
    F16wCm2,
}

/// Static description of one matmul kernel.
///
/// `uses_descriptors` is `true` for kernels whose shader binds A, B and C as
/// storage buffers, and `false` for kernels that address them by the
/// pointers in the push constants.
#[derive(Copy, Clone)]
pub struct KernelSpec {
    pub name: &'static str,
    pub tile_m: u32,
    pub tile_n: u32,
    pub tile_k: u32,
    /// File name of the compiled shader.
    pub shader: &'static str,
    pub uses_descriptors: bool,
}

/// Whether a kernel of this name reads B as f16 storage.
pub open spec fn name_weights_f16(name: Seq<char>) -> bool {
    starts_with(name, "f16w_"@)
}

/// Whether a kernel of this name multiplies with cooperative matrices.
pub open spec fn name_coopmat(name: Seq<char>) -> bool {
    contains(name, "coopmat"@)
}

/// Whether a kernel of this name uses the second generation of cooperative
/// matrices.
pub open spec fn name_cm2(name: Seq<char>) -> bool {
    contains(name, "cm2"@)
}

/// Whether a kernel of this name only handles whole tiles.
pub open spec fn name_aligned(name: Seq<char>) -> bool {
    ends_with(name, "_aligned"@)
}

/// Whether a kernel of this name reads a packed B.
pub open spec fn name_packed(name: Seq<char>) -> bool {
    contains(name, "packed"@)
}

/// Whether a kernel of this name is a row GEMV.
pub open spec fn name_row(name: Seq<char>) -> bool {
    contains(name, "row_bda"@)
}

/// Whether a kernel of this name reads A and writes C as f16 storage.
pub open spec fn name_a_f16(name: Seq<char>) -> bool {
    contains(name, "_a16_"@)
}

impl KernelSpec {
    /// Whether the shader reads B as f16 storage.
    pub fn weights_f16(&self) -> (r: bool)
        ensures
            r == name_weights_f16(self.name@),
    {
        text_starts_with(self.name, "f16w_")
    }

    /// Whether the shader multiplies with cooperative matrices.
    pub fn coopmat(&self) -> (r: bool)
        ensures
            r == name_coopmat(self.name@),
    {
        text_contains(self.name, "coopmat")
    }

    /// Whether the shader uses the second generation of cooperative
    /// matrices.
    pub fn cm2(&self) -> (r: bool)
        ensures
            r == name_cm2(self.name@),
    {
        text_contains(self.name, "cm2")
    }

    /// Whether the shader only handles whole tiles.
    pub fn aligned_only(&self) -> (r: bool)
        ensures
            r == name_aligned(self.name@),
    {
        text_ends_with(self.name, "_aligned")
    }

    /// Whether the shader reads a packed B.
    pub fn packed(&self) -> (r: bool)
        ensures
            r == name_packed(self.name@),
    {
        text_contains(self.name, "packed")
    }

    /// Whether the shader is a row GEMV.
    pub fn row_gemv(&self) -> (r: bool)
        ensures
            r == name_row(self.name@),
    {
        text_contains(self.name, "row_bda")
    }

    /// Whether the shader body implements the fused epilogue: true for the
    /// pointer-addressed bodies other than the source-stripped aligned ones
    /// and the first-generation cooperative-matrix tiles.
    pub open spec fn fuses_epilogue(self) -> bool {
        !self.uses_descriptors && !name_aligned(self.name@) && !name_coopmat(self.name@)
    }

    /// Whether the shader body implements the fused epilogue.
    pub fn supports_epilogue(&self) -> (r: bool)
        ensures
            r == self.fuses_epilogue(),
    {
        !self.uses_descriptors && !self.aligned_only() && !self.coopmat()
    }

    /// Whether the shader reads A and writes C as f16 storage.
    pub fn a_f16(&self) -> (r: bool)
        ensures
            r == name_a_f16(self.name@),
    {
        text_contains(self.name, "_a16_")
    }

    /// Whether the shader body folds an RMSNorm of the A row into the
    /// product: the row-GEMV family only.
    pub fn supports_normed_a(&self) -> (r: bool)
        ensures
            r == name_row(self.name@),
    {
        self.row_gemv()
    }

    /// Whether the shader body rotates or scatters the output row: the
    /// f16-weights row-GEMV family only.
    pub open spec fn fuses_store(self) -> bool {
        name_weights_f16(self.name@) && name_row(self.name@)
    }

    /// Whether the shader body rotates or scatters the output row.
    pub fn supports_store(&self) -> (r: bool)
        ensures
            r == self.fuses_store(),
    {
        self.weights_f16() && self.row_gemv()
    }
}

impl KernelSelection {
    /// Position in the registry; `Auto` has none.
    pub open spec fn index_of(self) -> Option<usize> {
        match self {
            KernelSelection::Auto => None,
            KernelSelection::Large => Some(0),
            KernelSelection::Small => Some(1),
            KernelSelection::M64N128 => Some(2),
            KernelSelection::M128N64 => Some(3),
            KernelSelection::M128N64K64 => Some(4),
            KernelSelection::M64N32 => Some(5),
            KernelSelection::K64 => Some(6),
            KernelSelection::Bk16 => Some(7),
            KernelSelection::V2 => Some(8),
            KernelSelection::M64N128K64 => Some(9),
            KernelSelection::M128N128T4 => Some(10),
            KernelSelection::M256N64 => Some(11),
            KernelSelection::V3 => Some(12),
            KernelSelection::LargeBda => Some(13),
            KernelSelection::M128N64K64Bda => Some(14),
            KernelSelection::K64Bda => Some(15),
            KernelSelection::SmallBda => Some(16),
            KernelSelection::M64N32Bda => Some(17),
            KernelSelection::M128N64Bda => Some(18),
            KernelSelection::M64N128Bda => Some(19),
            KernelSelection::LargeBdaV4 => Some(20),
            KernelSelection::M128N64K64BdaV4 => Some(21),
            KernelSelection::SmallBdaV4 => Some(22),
            KernelSelection::K64BdaV4 => Some(23),
            KernelSelection::M128N64BdaV4 => Some(24),
            KernelSelection::M64N128BdaV4 => Some(25),
            KernelSelection::Bk16BdaV4 => Some(26),
            KernelSelection::M128N64K64BdaV4Tm8Tn8 => Some(27),
            KernelSelection::M128N64K64BdaV4Tm16Tn4 => Some(28),
            KernelSelection::K64BdaV4Tm8Tn4 => Some(29),
            KernelSelection::K64BdaV4Tm4Tn8 => Some(30),
            KernelSelection::K64BdaV4Tm8Tn8 => Some(31),
            KernelSelection::LargeBdaV4Aligned => Some(32),
            KernelSelection::M128N64K64BdaV4Aligned => Some(33),
            KernelSelection::RowBda => Some(34),
            KernelSelection::ColBda => Some(35),
            KernelSelection::OuterBda => Some(36),
            KernelSelection::F16wLargeBdaV4 => Some(37),
            KernelSelection::F16wSmallBdaV4 => Some(38),
            KernelSelection::F16wK64BdaV4 => Some(39),
            KernelSelection::F16wM128N64K64BdaV4 => Some(40),
            KernelSelection::F16wRowBda => Some(41),
            KernelSelection::F16wRowBdaK16 => Some(42),
            KernelSelection::F16wRowBdaK16V2 => Some(43),
            KernelSelection::F16wRowBdaK16Packed => Some(44),
            KernelSelection::F16wRowBdaK16V2Packed => Some(45),
            KernelSelection::F16wCoopmat => Some(46),
            KernelSelection::F16wCoopmatM64 => Some(47),
            KernelSelection::F16wCoopmatM64N128 => Some(48),
            KernelSelection::F16wCoopmatM128N64 => Some(49),
            KernelSelection::F16wA16Coopmat => Some(50),
            KernelSelection::F16wA16CoopmatM64 => Some(51),
            KernelSelection::F16wA16CoopmatM64N128 => Some(52),
            KernelSelection::F16wA16CoopmatM128N64 => Some(53),
            KernelSelection::F16wCm2 => Some(54),
        }
    }

    /// Position in the registry; `Auto` has none.
    pub fn index(self) -> (r: Option<usize>)
        ensures
            r == self.index_of(),
            r is Some ==> r->0 < KERNEL_COUNT,
            r is None <==> self is Auto,
    {
        match self {
            KernelSelection::Auto => None,
            KernelSelection::Large => Some(0),
            KernelSelection::Small => Some(1),
            KernelSelection::M64N128 => Some(2),
            KernelSelection::M128N64 => Some(3),
            KernelSelection::M128N64K64 => Some(4),
            KernelSelection::M64N32 => Some(5),
            KernelSelection::K64 => Some(6),
            KernelSelection::Bk16 => Some(7),
            KernelSelection::V2 => Some(8),
            KernelSelection::M64N128K64 => Some(9),
            KernelSelection::M128N128T4 => Some(10),
            KernelSelection::M256N64 => Some(11),
            KernelSelection::V3 => Some(12),
            KernelSelection::LargeBda => Some(13),
            KernelSelection::M128N64K64Bda => Some(14),
            KernelSelection::K64Bda => Some(15),
            KernelSelection::SmallBda => Some(16),
            KernelSelection::M64N32Bda => Some(17),
            KernelSelection::M128N64Bda => Some(18),
            KernelSelection::M64N128Bda => Some(19),
            KernelSelection::LargeBdaV4 => Some(20),
            KernelSelection::M128N64K64BdaV4 => Some(21),
            KernelSelection::SmallBdaV4 => Some(22),
            KernelSelection::K64BdaV4 => Some(23),
            KernelSelection::M128N64BdaV4 => Some(24),
            KernelSelection::M64N128BdaV4 => Some(25),
            KernelSelection::Bk16BdaV4 => Some(26),
            KernelSelection::M128N64K64BdaV4Tm8Tn8 => Some(27),
            KernelSelection::M128N64K64BdaV4Tm16Tn4 => Some(28),
            KernelSelection::K64BdaV4Tm8Tn4 => Some(29),
            KernelSelection::K64BdaV4Tm4Tn8 => Some(30),
            KernelSelection::K64BdaV4Tm8Tn8 => Some(31),
            KernelSelection::LargeBdaV4Aligned => Some(32),
            KernelSelection::M128N64K64BdaV4Aligned => Some(33),
            KernelSelection::RowBda => Some(34),
            KernelSelection::ColBda => Some(35),
            KernelSelection::OuterBda => Some(36),
            KernelSelection::F16wLargeBdaV4 => Some(37),
            KernelSelection::F16wSmallBdaV4 => Some(38),
            KernelSelection::F16wK64BdaV4 => Some(39),
            KernelSelection::F16wM128N64K64BdaV4 => Some(40),
            KernelSelection::F16wRowBda => Some(41),
            KernelSelection::F16wRowBdaK16 => Some(42),
            KernelSelection::F16wRowBdaK16V2 => Some(43),
            KernelSelection::F16wRowBdaK16Packed => Some(44),
            KernelSelection::F16wRowBdaK16V2Packed => Some(45),
            KernelSelection::F16wCoopmat => Some(46),
            KernelSelection::F16wCoopmatM64 => Some(47),
            KernelSelection::F16wCoopmatM64N128 => Some(48),
            KernelSelection::F16wCoopmatM128N64 => Some(49),
            KernelSelection::F16wA16Coopmat => Some(50),
            KernelSelection::F16wA16CoopmatM64 => Some(51),
            KernelSelection::F16wA16CoopmatM64N128 => Some(52),
            KernelSelection::F16wA16CoopmatM128N64 => Some(53),
            KernelSelection::F16wCm2 => Some(54),
        }
    }

    /// The kernel at a position of the registry.
    pub open spec fn of_index(idx: int) -> KernelSelection {
        if idx == 0 { KernelSelection::Large }
        else if idx == 1 { KernelSelection::Small }
        else if idx == 2 { KernelSelection::M64N128 }
        else if idx == 3 { KernelSelection::M128N64 }
        else if idx == 4 { KernelSelection::M128N64K64 }
        else if idx == 5 { KernelSelection::M64N32 }
        else if idx == 6 { KernelSelection::K64 }
        else if idx == 7 { KernelSelection::Bk16 }
        else if idx == 8 { KernelSelection::V2 }
        else if idx == 9 { KernelSelection::M64N128K64 }
        else if idx == 10 { KernelSelection::M128N128T4 }
        else if idx == 11 { KernelSelection::M256N64 }
        else if idx == 12 { KernelSelection::V3 }
        else if idx == 13 { KernelSelection::LargeBda }
        else if idx == 14 { KernelSelection::M128N64K64Bda }
        else if idx == 15 { KernelSelection::K64Bda }
        else if idx == 16 { KernelSelection::SmallBda }
        else if idx == 17 { KernelSelection::M64N32Bda }
        else if idx == 18 { KernelSelection::M128N64Bda }
        else if idx == 19 { KernelSelection::M64N128Bda }
        else if idx == 20 { KernelSelection::LargeBdaV4 }
        else if idx == 21 { KernelSelection::M128N64K64BdaV4 }
        else if idx == 22 { KernelSelection::SmallBdaV4 }
        else if idx == 23 { KernelSelection::K64BdaV4 }
        else if idx == 24 { KernelSelection::M128N64BdaV4 }
        else if idx == 25 { KernelSelection::M64N128BdaV4 }
        else if idx == 26 { KernelSelection::Bk16BdaV4 }
        else if idx == 27 { KernelSelection::M128N64K64BdaV4Tm8Tn8 }
        else if idx == 28 { KernelSelection::M128N64K64BdaV4Tm16Tn4 }
        else if idx == 29 { KernelSelection::K64BdaV4Tm8Tn4 }
        else if idx == 30 { KernelSelection::K64BdaV4Tm4Tn8 }
        else if idx == 31 { KernelSelection::K64BdaV4Tm8Tn8 }
        else if idx == 32 { KernelSelection::LargeBdaV4Aligned }
        else if idx == 33 { KernelSelection::M128N64K64BdaV4Aligned }
        else if idx == 34 { KernelSelection::RowBda }
        else if idx == 35 { KernelSelection::ColBda }
        else if idx == 36 { KernelSelection::OuterBda }
        else if idx == 37 { KernelSelection::F16wLargeBdaV4 }
        else if idx == 38 { KernelSelection::F16wSmallBdaV4 }
        else if idx == 39 { KernelSelection::F16wK64BdaV4 }
        else if idx == 40 { KernelSelection::F16wM128N64K64BdaV4 }
        else if idx == 41 { KernelSelection::F16wRowBda }
        else if idx == 42 { KernelSelection::F16wRowBdaK16 }
        else if idx == 43 { KernelSelection::F16wRowBdaK16V2 }
        else if idx == 44 { KernelSelection::F16wRowBdaK16Packed }
        else if idx == 45 { KernelSelection::F16wRowBdaK16V2Packed }
        else if idx == 46 { KernelSelection::F16wCoopmat }
        else if idx == 47 { KernelSelection::F16wCoopmatM64 }
        else if idx == 48 { KernelSelection::F16wCoopmatM64N128 }
        else if idx == 49 { KernelSelection::F16wCoopmatM128N64 }
        else if idx == 50 { KernelSelection::F16wA16Coopmat }
        else if idx == 51 { KernelSelection::F16wA16CoopmatM64 }
        else if idx == 52 { KernelSelection::F16wA16CoopmatM64N128 }
        else if idx == 53 { KernelSelection::F16wA16CoopmatM128N64 }
        else { KernelSelection::F16wCm2 }
    }

    /// The kernel at a position of the registry.
    pub fn at_index(idx: usize) -> (r: KernelSelection)
        requires
            idx < KERNEL_COUNT,
        ensures
            r == Self::of_index(idx as int),
            r.index_of() == Some(idx),
    {
        if idx == 0 { KernelSelection::Large }
        else if idx == 1 { KernelSelection::Small }
        else if idx == 2 { KernelSelection::M64N128 }
        else if idx == 3 { KernelSelection::M128N64 }
        else if idx == 4 { KernelSelection::M128N64K64 }
        else if idx == 5 { KernelSelection::M64N32 }
        else if idx == 6 { KernelSelection::K64 }
        else if idx == 7 { KernelSelection::Bk16 }
        else if idx == 8 { KernelSelection::V2 }
        else if idx == 9 { KernelSelection::M64N128K64 }
        else if idx == 10 { KernelSelection::M128N128T4 }
        else if idx == 11 { KernelSelection::M256N64 }
        else if idx == 12 { KernelSelection::V3 }
        else if idx == 13 { KernelSelection::LargeBda }
        else if idx == 14 { KernelSelection::M128N64K64Bda }
        else if idx == 15 { KernelSelection::K64Bda }
        else if idx == 16 { KernelSelection::SmallBda }
        else if idx == 17 { KernelSelection::M64N32Bda }
        else if idx == 18 { KernelSelection::M128N64Bda }
        else if idx == 19 { KernelSelection::M64N128Bda }
        else if idx == 20 { KernelSelection::LargeBdaV4 }
        else if idx == 21 { KernelSelection::M128N64K64BdaV4 }
        else if idx == 22 { KernelSelection::SmallBdaV4 }
        else if idx == 23 { KernelSelection::K64BdaV4 }
        else if idx == 24 { KernelSelection::M128N64BdaV4 }
        else if idx == 25 { KernelSelection::M64N128BdaV4 }
        else if idx == 26 { KernelSelection::Bk16BdaV4 }
        else if idx == 27 { KernelSelection::M128N64K64BdaV4Tm8Tn8 }
        else if idx == 28 { KernelSelection::M128N64K64BdaV4Tm16Tn4 }
        else if idx == 29 { KernelSelection::K64BdaV4Tm8Tn4 }
        else if idx == 30 { KernelSelection::K64BdaV4Tm4Tn8 }
        else if idx == 31 { KernelSelection::K64BdaV4Tm8Tn8 }
        else if idx == 32 { KernelSelection::LargeBdaV4Aligned }
        else if idx == 33 { KernelSelection::M128N64K64BdaV4Aligned }
        else if idx == 34 { KernelSelection::RowBda }
        else if idx == 35 { KernelSelection::ColBda }
        else if idx == 36 { KernelSelection::OuterBda }
        else if idx == 37 { KernelSelection::F16wLargeBdaV4 }
        else if idx == 38 { KernelSelection::F16wSmallBdaV4 }
        else if idx == 39 { KernelSelection::F16wK64BdaV4 }
        else if idx == 40 { KernelSelection::F16wM128N64K64BdaV4 }
        else if idx == 41 { KernelSelection::F16wRowBda }
        else if idx == 42 { KernelSelection::F16wRowBdaK16 }
        else if idx == 43 { KernelSelection::F16wRowBdaK16V2 }
        else if idx == 44 { KernelSelection::F16wRowBdaK16Packed }
        else if idx == 45 { KernelSelection::F16wRowBdaK16V2Packed }
        else if idx == 46 { KernelSelection::F16wCoopmat }
        else if idx == 47 { KernelSelection::F16wCoopmatM64 }
        else if idx == 48 { KernelSelection::F16wCoopmatM64N128 }
        else if idx == 49 { KernelSelection::F16wCoopmatM128N64 }
        else if idx == 50 { KernelSelection::F16wA16Coopmat }
        else if idx == 51 { KernelSelection::F16wA16CoopmatM64 }
        else if idx == 52 { KernelSelection::F16wA16CoopmatM64N128 }
        else if idx == 53 { KernelSelection::F16wA16CoopmatM128N64 }
        else { KernelSelection::F16wCm2 }
    }

    /// The description of the kernel; of the first one for `Auto`, which
    /// stands for none.
    pub open spec fn spec_of(self) -> KernelSpec {
        match self {
            KernelSelection::Auto | KernelSelection::Large => KernelSpec {
                name: "large_128",
                tile_m: 128,
                tile_n: 128,
                tile_k: 32,
                shader: "matmul_f32.spv",
                uses_descriptors: true,
            },
            KernelSelection::Small => KernelSpec {
                name: "small_64",
                tile_m: 64,
                tile_n: 64,
                tile_k: 32,
                shader: "matmul_f32_small.spv",
                uses_descriptors: true,
            },
            KernelSelection::M64N128 => KernelSpec {
                name: "m64n128",
                tile_m: 64,
                tile_n: 128,
                tile_k: 32,
                shader: "matmul_f32_m64n128.spv",
                uses_descriptors: true,
            },
            KernelSelection::M128N64 => KernelSpec {
                name: "m128n64",
                tile_m: 128,
                tile_n: 64,
                tile_k: 32,
                shader: "matmul_f32_m128n64.spv",
                uses_descriptors: true,
            },
            KernelSelection::M128N64K64 => KernelSpec {
                name: "m128n64k64",
                tile_m: 128,
                tile_n: 64,
                tile_k: 64,
                shader: "matmul_f32_m128n64k64.spv",
                uses_descriptors: true,
            },
            KernelSelection::M64N32 => KernelSpec {
                name: "m64n32",
                tile_m: 64,
                tile_n: 32,
                tile_k: 32,
                shader: "matmul_f32_m64n32.spv",
                uses_descriptors: true,
            },
            KernelSelection::K64 => KernelSpec {
                name: "k64",
                tile_m: 64,
                tile_n: 64,
                tile_k: 64,
                shader: "matmul_f32_k64.spv",
                uses_descriptors: true,
            },
            KernelSelection::Bk16 => KernelSpec {
                name: "bk16_128x128",
                tile_m: 128,
                tile_n: 128,
                tile_k: 16,
                shader: "matmul_f32_bk16.spv",
                uses_descriptors: true,
            },
            KernelSelection::V2 => KernelSpec {
                name: "v2_128x128_bk8",
                tile_m: 128,
                tile_n: 128,
                tile_k: 8,
                shader: "matmul_f32_v2.spv",
                uses_descriptors: true,
            },
            KernelSelection::M64N128K64 => KernelSpec {
                name: "m64n128k64",
                tile_m: 64,
                tile_n: 128,
                tile_k: 64,
                shader: "matmul_f32_m64n128k64.spv",
                uses_descriptors: true,
            },
            KernelSelection::M128N128T4 => KernelSpec {
                name: "m128n128_t4",
                tile_m: 128,
                tile_n: 128,
                tile_k: 32,
                shader: "matmul_f32_m128n128_t4.spv",
                uses_descriptors: true,
            },
            KernelSelection::M256N64 => KernelSpec {
                name: "m256n64",
                tile_m: 256,
                tile_n: 64,
                tile_k: 32,
                shader: "matmul_f32_m256n64.spv",
                uses_descriptors: true,
            },
            KernelSelection::V3 => KernelSpec {
                name: "v3_128x128_bk8_static",
                tile_m: 128,
                tile_n: 128,
                tile_k: 8,
                shader: "matmul_f32_v3.spv",
                uses_descriptors: true,
            },
            KernelSelection::LargeBda => KernelSpec {
                name: "large_bda",
                tile_m: 128,
                tile_n: 128,
                tile_k: 32,
                shader: "matmul_f32_large_bda.spv",
                uses_descriptors: false,
            },
            KernelSelection::M128N64K64Bda => KernelSpec {
                name: "m128n64k64_bda",
                tile_m: 128,
                tile_n: 64,
                tile_k: 64,
                shader: "matmul_f32_m128n64k64_bda.spv",
                uses_descriptors: false,
            },
            KernelSelection::K64Bda => KernelSpec {
                name: "k64_bda",
                tile_m: 64,
                tile_n: 64,
                tile_k: 64,
                shader: "matmul_f32_k64_bda.spv",
                uses_descriptors: false,
            },
            KernelSelection::SmallBda => KernelSpec {
                name: "small_bda",
                tile_m: 64,
                tile_n: 64,
                tile_k: 32,
                shader: "matmul_f32_small_bda.spv",
                uses_descriptors: false,
            },
            KernelSelection::M64N32Bda => KernelSpec {
                name: "m64n32_bda",
                tile_m: 64,
                tile_n: 32,
                tile_k: 32,
                shader: "matmul_f32_m64n32_bda.spv",
                uses_descriptors: false,
            },
            KernelSelection::M128N64Bda => KernelSpec {
                name: "m128n64_bda",
                tile_m: 128,
                tile_n: 64,
                tile_k: 32,
                shader: "matmul_f32_m128n64_bda.spv",
                uses_descriptors: false,
            },
            KernelSelection::M64N128Bda => KernelSpec {
                name: "m64n128_bda",
                tile_m: 64,
                tile_n: 128,
                tile_k: 32,
                shader: "matmul_f32_m64n128_bda.spv",
                uses_descriptors: false,
            },
            KernelSelection::LargeBdaV4 => KernelSpec {
                name: "large_bda_v4",
                tile_m: 128,
                tile_n: 128,
                tile_k: 32,
                shader: "matmul_f32_large_bda_v4.spv",
                uses_descriptors: false,
            },
            KernelSelection::M128N64K64BdaV4 => KernelSpec {
                name: "m128n64k64_bda_v4",
                tile_m: 128,
                tile_n: 64,
                tile_k: 64,
                shader: "matmul_f32_m128n64k64_bda_v4.spv",
                uses_descriptors: false,
            },
            KernelSelection::SmallBdaV4 => KernelSpec {
                name: "small_bda_v4",
                tile_m: 64,
                tile_n: 64,
                tile_k: 32,
                shader: "matmul_f32_small_bda_v4.spv",
                uses_descriptors: false,
            },
            KernelSelection::K64BdaV4 => KernelSpec {
                name: "k64_bda_v4",
                tile_m: 64,
                tile_n: 64,
                tile_k: 64,
                shader: "matmul_f32_k64_bda_v4.spv",
                uses_descriptors: false,
            },
            KernelSelection::M128N64BdaV4 => KernelSpec {
                name: "m128n64_bda_v4",
                tile_m: 128,
                tile_n: 64,
                tile_k: 32,
                shader: "matmul_f32_m128n64_bda_v4.spv",
                uses_descriptors: false,
            },
            KernelSelection::M64N128BdaV4 => KernelSpec {
                name: "m64n128_bda_v4",
                tile_m: 64,
                tile_n: 128,
                tile_k: 32,
                shader: "matmul_f32_m64n128_bda_v4.spv",
                uses_descriptors: false,
            },
            KernelSelection::Bk16BdaV4 => KernelSpec {
                name: "bk16_bda_v4",
                tile_m: 128,
                tile_n: 128,
                tile_k: 16,
                shader: "matmul_f32_bk16_bda_v4.spv",
                uses_descriptors: false,
            },
            KernelSelection::M128N64K64BdaV4Tm8Tn8 => KernelSpec {
                name: "m128n64k64_bda_v4_tm8_tn8",
                tile_m: 128,
                tile_n: 64,
                tile_k: 64,
                shader: "matmul_f32_m128n64k64_bda_v4_tm8_tn8.spv",
                uses_descriptors: false,
            },
            KernelSelection::M128N64K64BdaV4Tm16Tn4 => KernelSpec {
                name: "m128n64k64_bda_v4_tm16_tn4",
                tile_m: 128,
                tile_n: 64,
                tile_k: 64,
                shader: "matmul_f32_m128n64k64_bda_v4_tm16_tn4.spv",
                uses_descriptors: false,
            },
            KernelSelection::K64BdaV4Tm8Tn4 => KernelSpec {
                name: "k64_bda_v4_tm8_tn4",
                tile_m: 64,
                tile_n: 64,
                tile_k: 64,
                shader: "matmul_f32_k64_bda_v4_tm8_tn4.spv",
                uses_descriptors: false,
            },
            KernelSelection::K64BdaV4Tm4Tn8 => KernelSpec {
                name: "k64_bda_v4_tm4_tn8",
                tile_m: 64,
                tile_n: 64,
                tile_k: 64,
                shader: "matmul_f32_k64_bda_v4_tm4_tn8.spv",
                uses_descriptors: false,
            },
            KernelSelection::K64BdaV4Tm8Tn8 => KernelSpec {
                name: "k64_bda_v4_tm8_tn8",
                tile_m: 64,
                tile_n: 64,
                tile_k: 64,
                shader: "matmul_f32_k64_bda_v4_tm8_tn8.spv",
                uses_descriptors: false,
            },
            KernelSelection::LargeBdaV4Aligned => KernelSpec {
                name: "large_bda_v4_aligned",
                tile_m: 128,
                tile_n: 128,
                tile_k: 32,
                shader: "matmul_f32_large_bda_v4_aligned.spv",
                uses_descriptors: false,
            },
            KernelSelection::M128N64K64BdaV4Aligned => KernelSpec {
                name: "m128n64k64_bda_v4_aligned",
                tile_m: 128,
                tile_n: 64,
                tile_k: 64,
                shader: "matmul_f32_m128n64k64_bda_v4_aligned.spv",
                uses_descriptors: false,
            },
            KernelSelection::RowBda => KernelSpec {
                name: "row_bda",
                tile_m: 1,
                tile_n: 32,
                tile_k: 1,
                shader: "matmul_f32_row_bda.spv",
                uses_descriptors: false,
            },
            KernelSelection::ColBda => KernelSpec {
                name: "col_bda",
                tile_m: 2,
                tile_n: 1,
                tile_k: 1,
                shader: "matmul_f32_col_bda.spv",
                uses_descriptors: false,
            },
            KernelSelection::OuterBda => KernelSpec {
                name: "outer_bda",
                tile_m: 16,
                tile_n: 128,
                tile_k: 1,
                shader: "matmul_f32_outer_bda.spv",
                uses_descriptors: false,
            },
            KernelSelection::F16wLargeBdaV4 => KernelSpec {
                name: "f16w_large_bda_v4",
                tile_m: 128,
                tile_n: 128,
                tile_k: 32,
                shader: "matmul_f16w_large_bda_v4.spv",
                uses_descriptors: false,
            },
            KernelSelection::F16wSmallBdaV4 => KernelSpec {
                name: "f16w_small_bda_v4",
                tile_m: 64,
                tile_n: 64,
                tile_k: 32,
                shader: "matmul_f16w_small_bda_v4.spv",
                uses_descriptors: false,
            },
            KernelSelection::F16wK64BdaV4 => KernelSpec {
                name: "f16w_k64_bda_v4",
                tile_m: 64,
                tile_n: 64,
                tile_k: 64,
                shader: "matmul_f16w_k64_bda_v4.spv",
                uses_descriptors: false,
            },
            KernelSelection::F16wM128N64K64BdaV4 => KernelSpec {
                name: "f16w_m128n64k64_bda_v4",
                tile_m: 128,
                tile_n: 64,
                tile_k: 64,
                shader: "matmul_f16w_m128n64k64_bda_v4.spv",
                uses_descriptors: false,
            },
            KernelSelection::F16wRowBda => KernelSpec {
                name: "f16w_row_bda",
                tile_m: 1,
                tile_n: 32,
                tile_k: 1,
                shader: "matmul_f16w_row_bda.spv",
                uses_descriptors: false,
            },
            KernelSelection::F16wRowBdaK16 => KernelSpec {
                name: "f16w_row_bda_k16",
                tile_m: 1,
                tile_n: 32,
                tile_k: 1,
                shader: "matmul_f16w_row_bda_k16.spv",
                uses_descriptors: false,
            },
            KernelSelection::F16wRowBdaK16V2 => KernelSpec {
                name: "f16w_row_bda_k16_v2",
                tile_m: 1,
                tile_n: 64,
                tile_k: 1,
                shader: "matmul_f16w_row_bda_k16_v2.spv",
                uses_descriptors: false,
            },
            KernelSelection::F16wRowBdaK16Packed => KernelSpec {
                name: "f16w_row_bda_k16_packed",
                tile_m: 1,
                tile_n: 32,
                tile_k: 1,
                shader: "matmul_f16w_row_bda_k16_packed.spv",
                uses_descriptors: false,
            },
            KernelSelection::F16wRowBdaK16V2Packed => KernelSpec {
                name: "f16w_row_bda_k16_v2_packed",
                tile_m: 1,
                tile_n: 64,
                tile_k: 1,
                shader: "matmul_f16w_row_bda_k16_v2_packed.spv",
                uses_descriptors: false,
            },
            KernelSelection::F16wCoopmat => KernelSpec {
                name: "f16w_coopmat_aligned",
                tile_m: 128,
                tile_n: 128,
                tile_k: 32,
                shader: "matmul_f16w_coopmat_aligned.spv",
                uses_descriptors: false,
            },
            KernelSelection::F16wCoopmatM64 => KernelSpec {
                name: "f16w_coopmat_m64",
                tile_m: 64,
                tile_n: 64,
                tile_k: 32,
                shader: "matmul_f16w_coopmat_m64.spv",
                uses_descriptors: false,
            },
            KernelSelection::F16wCoopmatM64N128 => KernelSpec {
                name: "f16w_coopmat_m64n128",
                tile_m: 64,
                tile_n: 128,
                tile_k: 32,
                shader: "matmul_f16w_coopmat_m64n128.spv",
                uses_descriptors: false,
            },
            KernelSelection::F16wCoopmatM128N64 => KernelSpec {
                name: "f16w_coopmat_m128n64",
                tile_m: 128,
                tile_n: 64,
                tile_k: 32,
                shader: "matmul_f16w_coopmat_m128n64.spv",
                uses_descriptors: false,
            },
            KernelSelection::F16wA16Coopmat => KernelSpec {
                name: "f16w_a16_coopmat_aligned",
                tile_m: 128,
                tile_n: 128,
                tile_k: 32,
                shader: "matmul_f16w_a16_coopmat_aligned.spv",
                uses_descriptors: false,
            },
            KernelSelection::F16wA16CoopmatM64 => KernelSpec {
                name: "f16w_a16_coopmat_m64",
                tile_m: 64,
                tile_n: 64,
                tile_k: 32,
                shader: "matmul_f16w_a16_coopmat_m64.spv",
                uses_descriptors: false,
            },
            KernelSelection::F16wA16CoopmatM64N128 => KernelSpec {
                name: "f16w_a16_coopmat_m64n128",
                tile_m: 64,
                tile_n: 128,
                tile_k: 32,
                shader: "matmul_f16w_a16_coopmat_m64n128.spv",
                uses_descriptors: false,
            },
            KernelSelection::F16wA16CoopmatM128N64 => KernelSpec {
                name: "f16w_a16_coopmat_m128n64",
                tile_m: 128,
                tile_n: 64,
                tile_k: 32,
                shader: "matmul_f16w_a16_coopmat_m128n64.spv",
                uses_descriptors: false,
            },
            KernelSelection::F16wCm2 => KernelSpec {
                name: "f16w_cm2",
                tile_m: 128,
                tile_n: 128,
                tile_k: 32,
                shader: "matmul_f16w_cm2.spv",
                uses_descriptors: false,
            },
        }
    }

    /// The description of the kernel.
    pub fn kernel_spec(self) -> (r: KernelSpec)
        requires
            !(self is Auto),
        ensures
            r == self.spec_of(),
            r.tile_m > 0,
            r.tile_n > 0,
            0 < r.tile_k <= 64,
    {
        match self {
            KernelSelection::Auto | KernelSelection::Large => KernelSpec {
                name: "large_128",
                tile_m: 128,
                tile_n: 128,
                tile_k: 32,
                shader: "matmul_f32.spv",
                uses_descriptors: true,
            },
            KernelSelection::Small => KernelSpec {
                name: "small_64",
                tile_m: 64,
                tile_n: 64,
                tile_k: 32,
                shader: "matmul_f32_small.spv",
                uses_descriptors: true,
            },
            KernelSelection::M64N128 => KernelSpec {
                name: "m64n128",
                tile_m: 64,
                tile_n: 128,
                tile_k: 32,
                shader: "matmul_f32_m64n128.spv",
                uses_descriptors: true,
            },
            KernelSelection::M128N64 => KernelSpec {
                name: "m128n64",
                tile_m: 128,
                tile_n: 64,
                tile_k: 32,
                shader: "matmul_f32_m128n64.spv",
                uses_descriptors: true,
            },
            KernelSelection::M128N64K64 => KernelSpec {
                name: "m128n64k64",
                tile_m: 128,
                tile_n: 64,
                tile_k: 64,
                shader: "matmul_f32_m128n64k64.spv",
                uses_descriptors: true,
            },
            KernelSelection::M64N32 => KernelSpec {
                name: "m64n32",
                tile_m: 64,
                tile_n: 32,
                tile_k: 32,
                shader: "matmul_f32_m64n32.spv",
                uses_descriptors: true,
            },
            KernelSelection::K64 => KernelSpec {
                name: "k64",
                tile_m: 64,
                tile_n: 64,
                tile_k: 64,
                shader: "matmul_f32_k64.spv",
                uses_descriptors: true,
            },
            KernelSelection::Bk16 => KernelSpec {
                name: "bk16_128x128",
                tile_m: 128,
                tile_n: 128,
                tile_k: 16,
                shader: "matmul_f32_bk16.spv",
                uses_descriptors: true,
            },
            KernelSelection::V2 => KernelSpec {
                name: "v2_128x128_bk8",
                tile_m: 128,
                tile_n: 128,
                tile_k: 8,
                shader: "matmul_f32_v2.spv",
                uses_descriptors: true,
            },
            KernelSelection::M64N128K64 => KernelSpec {
                name: "m64n128k64",
                tile_m: 64,
                tile_n: 128,
                tile_k: 64,
                shader: "matmul_f32_m64n128k64.spv",
                uses_descriptors: true,
            },
            KernelSelection::M128N128T4 => KernelSpec {
                name: "m128n128_t4",
                tile_m: 128,
                tile_n: 128,
                tile_k: 32,
                shader: "matmul_f32_m128n128_t4.spv",
                uses_descriptors: true,
            },
            KernelSelection::M256N64 => KernelSpec {
                name: "m256n64",
                tile_m: 256,
                tile_n: 64,
                tile_k: 32,
                shader: "matmul_f32_m256n64.spv",
                uses_descriptors: true,
            },
            KernelSelection::V3 => KernelSpec {
                name: "v3_128x128_bk8_static",
                tile_m: 128,
                tile_n: 128,
                tile_k: 8,
                shader: "matmul_f32_v3.spv",
                uses_descriptors: true,
            },
            KernelSelection::LargeBda => KernelSpec {
                name: "large_bda",
                tile_m: 128,
                tile_n: 128,
                tile_k: 32,
                shader: "matmul_f32_large_bda.spv",
                uses_descriptors: false,
            },
            KernelSelection::M128N64K64Bda => KernelSpec {
                name: "m128n64k64_bda",
                tile_m: 128,
                tile_n: 64,
                tile_k: 64,
                shader: "matmul_f32_m128n64k64_bda.spv",
                uses_descriptors: false,
            },
            KernelSelection::K64Bda => KernelSpec {
                name: "k64_bda",
                tile_m: 64,
                tile_n: 64,
                tile_k: 64,
                shader: "matmul_f32_k64_bda.spv",
                uses_descriptors: false,
            },
            KernelSelection::SmallBda => KernelSpec {
                name: "small_bda",
                tile_m: 64,
                tile_n: 64,
                tile_k: 32,
                shader: "matmul_f32_small_bda.spv",
                uses_descriptors: false,
            },
            KernelSelection::M64N32Bda => KernelSpec {
                name: "m64n32_bda",
                tile_m: 64,
                tile_n: 32,
                tile_k: 32,
                shader: "matmul_f32_m64n32_bda.spv",
                uses_descriptors: false,
            },
            KernelSelection::M128N64Bda => KernelSpec {
                name: "m128n64_bda",
                tile_m: 128,
                tile_n: 64,
                tile_k: 32,
                shader: "matmul_f32_m128n64_bda.spv",
                uses_descriptors: false,
            },
            KernelSelection::M64N128Bda => KernelSpec {
                name: "m64n128_bda",
                tile_m: 64,
                tile_n: 128,
                tile_k: 32,
                shader: "matmul_f32_m64n128_bda.spv",
                uses_descriptors: false,
            },
            KernelSelection::LargeBdaV4 => KernelSpec {
                name: "large_bda_v4",
                tile_m: 128,
                tile_n: 128,
                tile_k: 32,
                shader: "matmul_f32_large_bda_v4.spv",
                uses_descriptors: false,
            },
            KernelSelection::M128N64K64BdaV4 => KernelSpec {
                name: "m128n64k64_bda_v4",
                tile_m: 128,
                tile_n: 64,
                tile_k: 64,
                shader: "matmul_f32_m128n64k64_bda_v4.spv",
                uses_descriptors: false,
            },
            KernelSelection::SmallBdaV4 => KernelSpec {
                name: "small_bda_v4",
                tile_m: 64,
                tile_n: 64,
                tile_k: 32,
                shader: "matmul_f32_small_bda_v4.spv",
                uses_descriptors: false,
            },
            KernelSelection::K64BdaV4 => KernelSpec {
                name: "k64_bda_v4",
                tile_m: 64,
                tile_n: 64,
                tile_k: 64,
                shader: "matmul_f32_k64_bda_v4.spv",
                uses_descriptors: false,
            },
            KernelSelection::M128N64BdaV4 => KernelSpec {
                name: "m128n64_bda_v4",
                tile_m: 128,
                tile_n: 64,
                tile_k: 32,
                shader: "matmul_f32_m128n64_bda_v4.spv",
                uses_descriptors: false,
            },
            KernelSelection::M64N128BdaV4 => KernelSpec {
                name: "m64n128_bda_v4",
                tile_m: 64,
                tile_n: 128,
                tile_k: 32,
                shader: "matmul_f32_m64n128_bda_v4.spv",
                uses_descriptors: false,
            },
            KernelSelection::Bk16BdaV4 => KernelSpec {
                name: "bk16_bda_v4",
                tile_m: 128,
                tile_n: 128,
                tile_k: 16,
                shader: "matmul_f32_bk16_bda_v4.spv",
                uses_descriptors: false,
            },
            KernelSelection::M128N64K64BdaV4Tm8Tn8 => KernelSpec {
                name: "m128n64k64_bda_v4_tm8_tn8",
                tile_m: 128,
                tile_n: 64,
                tile_k: 64,
                shader: "matmul_f32_m128n64k64_bda_v4_tm8_tn8.spv",
                uses_descriptors: false,
            },
            KernelSelection::M128N64K64BdaV4Tm16Tn4 => KernelSpec {
                name: "m128n64k64_bda_v4_tm16_tn4",
                tile_m: 128,
                tile_n: 64,
                tile_k: 64,
                shader: "matmul_f32_m128n64k64_bda_v4_tm16_tn4.spv",
                uses_descriptors: false,
            },
            KernelSelection::K64BdaV4Tm8Tn4 => KernelSpec {
                name: "k64_bda_v4_tm8_tn4",
                tile_m: 64,
                tile_n: 64,
                tile_k: 64,
                shader: "matmul_f32_k64_bda_v4_tm8_tn4.spv",
                uses_descriptors: false,
            },
            KernelSelection::K64BdaV4Tm4Tn8 => KernelSpec {
                name: "k64_bda_v4_tm4_tn8",
                tile_m: 64,
                tile_n: 64,
                tile_k: 64,
                shader: "matmul_f32_k64_bda_v4_tm4_tn8.spv",
                uses_descriptors: false,
            },
            KernelSelection::K64BdaV4Tm8Tn8 => KernelSpec {
                name: "k64_bda_v4_tm8_tn8",
                tile_m: 64,
                tile_n: 64,
                tile_k: 64,
                shader: "matmul_f32_k64_bda_v4_tm8_tn8.spv",
                uses_descriptors: false,
            },
            KernelSelection::LargeBdaV4Aligned => KernelSpec {
                name: "large_bda_v4_aligned",
                tile_m: 128,
                tile_n: 128,
                tile_k: 32,
                shader: "matmul_f32_large_bda_v4_aligned.spv",
                uses_descriptors: false,
            },
            KernelSelection::M128N64K64BdaV4Aligned => KernelSpec {
                name: "m128n64k64_bda_v4_aligned",
                tile_m: 128,
                tile_n: 64,
                tile_k: 64,
                shader: "matmul_f32_m128n64k64_bda_v4_aligned.spv",
                uses_descriptors: false,
            },
            KernelSelection::RowBda => KernelSpec {
                name: "row_bda",
                tile_m: 1,
                tile_n: 32,
                tile_k: 1,
                shader: "matmul_f32_row_bda.spv",
                uses_descriptors: false,
            },
            KernelSelection::ColBda => KernelSpec {
                name: "col_bda",
                tile_m: 2,
                tile_n: 1,
                tile_k: 1,
                shader: "matmul_f32_col_bda.spv",
                uses_descriptors: false,
            },
            KernelSelection::OuterBda => KernelSpec {
                name: "outer_bda",
                tile_m: 16,
                tile_n: 128,
                tile_k: 1,
                shader: "matmul_f32_outer_bda.spv",
                uses_descriptors: false,
            },
            KernelSelection::F16wLargeBdaV4 => KernelSpec {
                name: "f16w_large_bda_v4",
                tile_m: 128,
                tile_n: 128,
                tile_k: 32,
                shader: "matmul_f16w_large_bda_v4.spv",
                uses_descriptors: false,
            },
            KernelSelection::F16wSmallBdaV4 => KernelSpec {
                name: "f16w_small_bda_v4",
                tile_m: 64,
                tile_n: 64,
                tile_k: 32,
                shader: "matmul_f16w_small_bda_v4.spv",
                uses_descriptors: false,
            },
            KernelSelection::F16wK64BdaV4 => KernelSpec {
                name: "f16w_k64_bda_v4",
                tile_m: 64,
                tile_n: 64,
                tile_k: 64,
                shader: "matmul_f16w_k64_bda_v4.spv",
                uses_descriptors: false,
            },
            KernelSelection::F16wM128N64K64BdaV4 => KernelSpec {
                name: "f16w_m128n64k64_bda_v4",
                tile_m: 128,
                tile_n: 64,
                tile_k: 64,
                shader: "matmul_f16w_m128n64k64_bda_v4.spv",
                uses_descriptors: false,
            },
            KernelSelection::F16wRowBda => KernelSpec {
                name: "f16w_row_bda",
                tile_m: 1,
                tile_n: 32,
                tile_k: 1,
                shader: "matmul_f16w_row_bda.spv",
                uses_descriptors: false,
            },
            KernelSelection::F16wRowBdaK16 => KernelSpec {
                name: "f16w_row_bda_k16",
                tile_m: 1,
                tile_n: 32,
                tile_k: 1,
                shader: "matmul_f16w_row_bda_k16.spv",
                uses_descriptors: false,
            },
            KernelSelection::F16wRowBdaK16V2 => KernelSpec {
                name: "f16w_row_bda_k16_v2",
                tile_m: 1,
                tile_n: 64,
                tile_k: 1,
                shader: "matmul_f16w_row_bda_k16_v2.spv",
                uses_descriptors: false,
            },
            KernelSelection::F16wRowBdaK16Packed => KernelSpec {
                name: "f16w_row_bda_k16_packed",
                tile_m: 1,
                tile_n: 32,
                tile_k: 1,
                shader: "matmul_f16w_row_bda_k16_packed.spv",
                uses_descriptors: false,
            },
            KernelSelection::F16wRowBdaK16V2Packed => KernelSpec {
                name: "f16w_row_bda_k16_v2_packed",
                tile_m: 1,
                tile_n: 64,
                tile_k: 1,
                shader: "matmul_f16w_row_bda_k16_v2_packed.spv",
                uses_descriptors: false,
            },
            KernelSelection::F16wCoopmat => KernelSpec {
                name: "f16w_coopmat_aligned",
                tile_m: 128,
                tile_n: 128,
                tile_k: 32,
                shader: "matmul_f16w_coopmat_aligned.spv",
                uses_descriptors: false,
            },
            KernelSelection::F16wCoopmatM64 => KernelSpec {
                name: "f16w_coopmat_m64",
                tile_m: 64,
                tile_n: 64,
                tile_k: 32,
                shader: "matmul_f16w_coopmat_m64.spv",
                uses_descriptors: false,
            },
            KernelSelection::F16wCoopmatM64N128 => KernelSpec {
                name: "f16w_coopmat_m64n128",
                tile_m: 64,
                tile_n: 128,
                tile_k: 32,
                shader: "matmul_f16w_coopmat_m64n128.spv",
                uses_descriptors: false,
            },
            KernelSelection::F16wCoopmatM128N64 => KernelSpec {
                name: "f16w_coopmat_m128n64",
                tile_m: 128,
                tile_n: 64,
                tile_k: 32,
                shader: "matmul_f16w_coopmat_m128n64.spv",
                uses_descriptors: false,
            },
            KernelSelection::F16wA16Coopmat => KernelSpec {
                name: "f16w_a16_coopmat_aligned",
                tile_m: 128,
                tile_n: 128,
                tile_k: 32,
                shader: "matmul_f16w_a16_coopmat_aligned.spv",
                uses_descriptors: false,
            },
            KernelSelection::F16wA16CoopmatM64 => KernelSpec {
                name: "f16w_a16_coopmat_m64",
                tile_m: 64,
                tile_n: 64,
                tile_k: 32,
                shader: "matmul_f16w_a16_coopmat_m64.spv",
                uses_descriptors: false,
            },
            KernelSelection::F16wA16CoopmatM64N128 => KernelSpec {
                name: "f16w_a16_coopmat_m64n128",
                tile_m: 64,
                tile_n: 128,
                tile_k: 32,
                shader: "matmul_f16w_a16_coopmat_m64n128.spv",
                uses_descriptors: false,
            },
            KernelSelection::F16wA16CoopmatM128N64 => KernelSpec {
                name: "f16w_a16_coopmat_m128n64",
                tile_m: 128,
                tile_n: 64,
                tile_k: 32,
                shader: "matmul_f16w_a16_coopmat_m128n64.spv",
                uses_descriptors: false,
            },
            KernelSelection::F16wCm2 => KernelSpec {
                name: "f16w_cm2",
                tile_m: 128,
                tile_n: 128,
                tile_k: 32,
                shader: "matmul_f16w_cm2.spv",
                uses_descriptors: false,
            },
        }
    }

    /// The selection that a normalized name stands for.
    pub open spec fn named(name: Seq<char>) -> Option<KernelSelection> {
        if name == ""@ || name == "auto"@ { Some(KernelSelection::Auto) }
        else if name == "large"@ || name == "large_128"@ || name == "128"@ { Some(KernelSelection::Large) }
        else if name == "small"@ || name == "small_64"@ || name == "64"@ { Some(KernelSelection::Small) }
        else if name == "m64n128"@ || name == "64x128"@ || name == "wide"@ { Some(KernelSelection::M64N128) }
        else if name == "m128n64"@ || name == "128x64"@ || name == "tall"@ { Some(KernelSelection::M128N64) }
        else if name == "m128n64k64"@ || name == "128x64k64"@ { Some(KernelSelection::M128N64K64) }
        else if name == "m64n32"@ || name == "64x32"@ { Some(KernelSelection::M64N32) }
        else if name == "k64"@ || name == "small_k64"@ || name == "64k"@ { Some(KernelSelection::K64) }
        else if name == "bk16"@ || name == "128x128bk16"@ { Some(KernelSelection::Bk16) }
        else if name == "v2"@ || name == "128x128bk8"@ || name == "sota"@ { Some(KernelSelection::V2) }
        else if name == "m64n128k64"@ || name == "64x128k64"@ { Some(KernelSelection::M64N128K64) }
        else if name == "m128n128_t4"@ || name == "128x128_t4"@ { Some(KernelSelection::M128N128T4) }
        else if name == "m256n64"@ || name == "256x64"@ { Some(KernelSelection::M256N64) }
        else if name == "v3"@ || name == "128x128bk8static"@ { Some(KernelSelection::V3) }
        else if name == "large_bda"@ || name == "128x128_bda"@ { Some(KernelSelection::LargeBda) }
        else if name == "m128n64k64_bda"@ || name == "128x64k64_bda"@ { Some(KernelSelection::M128N64K64Bda) }
        else if name == "k64_bda"@ { Some(KernelSelection::K64Bda) }
        else if name == "small_bda"@ || name == "64_bda"@ { Some(KernelSelection::SmallBda) }
        else if name == "m64n32_bda"@ || name == "64x32_bda"@ { Some(KernelSelection::M64N32Bda) }
        else if name == "m128n64_bda"@ { Some(KernelSelection::M128N64Bda) }
        else if name == "m64n128_bda"@ { Some(KernelSelection::M64N128Bda) }
        else if name == "large_bda_v4"@ { Some(KernelSelection::LargeBdaV4) }
        else if name == "m128n64k64_bda_v4"@ { Some(KernelSelection::M128N64K64BdaV4) }
        else if name == "small_bda_v4"@ { Some(KernelSelection::SmallBdaV4) }
        else if name == "k64_bda_v4"@ { Some(KernelSelection::K64BdaV4) }
        else if name == "m128n64_bda_v4"@ { Some(KernelSelection::M128N64BdaV4) }
        else if name == "m64n128_bda_v4"@ { Some(KernelSelection::M64N128BdaV4) }
        else if name == "bk16_bda_v4"@ || name == "128x128bk16_bda_v4"@ { Some(KernelSelection::Bk16BdaV4) }
        else if name == "m128n64k64_bda_v4_tm8_tn8"@ { Some(KernelSelection::M128N64K64BdaV4Tm8Tn8) }
        else if name == "m128n64k64_bda_v4_tm16_tn4"@ { Some(KernelSelection::M128N64K64BdaV4Tm16Tn4) }
        else if name == "k64_bda_v4_tm8_tn4"@ { Some(KernelSelection::K64BdaV4Tm8Tn4) }
        else if name == "k64_bda_v4_tm4_tn8"@ { Some(KernelSelection::K64BdaV4Tm4Tn8) }
        else if name == "k64_bda_v4_tm8_tn8"@ { Some(KernelSelection::K64BdaV4Tm8Tn8) }
        else if name == "large_bda_v4_aligned"@ || name == "128x128_bda_v4_aligned"@ { Some(KernelSelection::LargeBdaV4Aligned) }
        else if name == "m128n64k64_bda_v4_aligned"@ { Some(KernelSelection::M128N64K64BdaV4Aligned) }
        else if name == "row_bda"@ || name == "row"@ || name == "gemv_bda"@ { Some(KernelSelection::RowBda) }
        else if name == "col_bda"@ || name == "col"@ || name == "gemv_col_bda"@ { Some(KernelSelection::ColBda) }
        else if name == "outer_bda"@ || name == "outer"@ || name == "k1"@ { Some(KernelSelection::OuterBda) }
        else if name == "f16w_large_bda_v4"@ || name == "f16w_large"@ { Some(KernelSelection::F16wLargeBdaV4) }
        else if name == "f16w_small_bda_v4"@ || name == "f16w_small"@ { Some(KernelSelection::F16wSmallBdaV4) }
        else if name == "f16w_k64_bda_v4"@ || name == "f16w_k64"@ { Some(KernelSelection::F16wK64BdaV4) }
        else if name == "f16w_m128n64k64_bda_v4"@ || name == "f16w_m128n64k64"@ { Some(KernelSelection::F16wM128N64K64BdaV4) }
        else if name == "f16w_row_bda"@ || name == "f16w_row"@ { Some(KernelSelection::F16wRowBda) }
        else if name == "f16w_row_bda_k16"@ { Some(KernelSelection::F16wRowBdaK16) }
        else if name == "f16w_row_bda_k16_v2"@ { Some(KernelSelection::F16wRowBdaK16V2) }
        else if name == "f16w_row_bda_k16_packed"@ { Some(KernelSelection::F16wRowBdaK16Packed) }
        else if name == "f16w_row_bda_k16_v2_packed"@ { Some(KernelSelection::F16wRowBdaK16V2Packed) }
        else if name == "f16w_coopmat_aligned"@ || name == "f16w_coopmat"@ { Some(KernelSelection::F16wCoopmat) }
        else if name == "f16w_coopmat_m64"@ { Some(KernelSelection::F16wCoopmatM64) }
        else if name == "f16w_coopmat_m64n128"@ { Some(KernelSelection::F16wCoopmatM64N128) }
        else if name == "f16w_coopmat_m128n64"@ { Some(KernelSelection::F16wCoopmatM128N64) }
        else if name == "f16w_a16_coopmat_aligned"@ || name == "f16w_a16_coopmat"@ { Some(KernelSelection::F16wA16Coopmat) }
        else if name == "f16w_a16_coopmat_m64"@ { Some(KernelSelection::F16wA16CoopmatM64) }
        else if name == "f16w_a16_coopmat_m64n128"@ { Some(KernelSelection::F16wA16CoopmatM64N128) }
        else if name == "f16w_a16_coopmat_m128n64"@ { Some(KernelSelection::F16wA16CoopmatM128N64) }
        else if name == "f16w_cm2"@ { Some(KernelSelection::F16wCm2) }
        else { None }
    }

    fn by_name(name: &str) -> (r: Option<KernelSelection>)
        ensures
            r == Self::named(name@),
    {
        if same_text(name, "") || same_text(name, "auto") { Some(KernelSelection::Auto) }
        else if same_text(name, "large") || same_text(name, "large_128") || same_text(name, "128") { Some(KernelSelection::Large) }
        else if same_text(name, "small") || same_text(name, "small_64") || same_text(name, "64") { Some(KernelSelection::Small) }
        else if same_text(name, "m64n128") || same_text(name, "64x128") || same_text(name, "wide") { Some(KernelSelection::M64N128) }
        else if same_text(name, "m128n64") || same_text(name, "128x64") || same_text(name, "tall") { Some(KernelSelection::M128N64) }
        else if same_text(name, "m128n64k64") || same_text(name, "128x64k64") { Some(KernelSelection::M128N64K64) }
        else if same_text(name, "m64n32") || same_text(name, "64x32") { Some(KernelSelection::M64N32) }
        else if same_text(name, "k64") || same_text(name, "small_k64") || same_text(name, "64k") { Some(KernelSelection::K64) }
        else if same_text(name, "bk16") || same_text(name, "128x128bk16") { Some(KernelSelection::Bk16) }
        else if same_text(name, "v2") || same_text(name, "128x128bk8") || same_text(name, "sota") { Some(KernelSelection::V2) }
        else if same_text(name, "m64n128k64") || same_text(name, "64x128k64") { Some(KernelSelection::M64N128K64) }
        else if same_text(name, "m128n128_t4") || same_text(name, "128x128_t4") { Some(KernelSelection::M128N128T4) }
        else if same_text(name, "m256n64") || same_text(name, "256x64") { Some(KernelSelection::M256N64) }
        else if same_text(name, "v3") || same_text(name, "128x128bk8static") { Some(KernelSelection::V3) }
        else if same_text(name, "large_bda") || same_text(name, "128x128_bda") { Some(KernelSelection::LargeBda) }
        else if same_text(name, "m128n64k64_bda") || same_text(name, "128x64k64_bda") { Some(KernelSelection::M128N64K64Bda) }
        else if same_text(name, "k64_bda") { Some(KernelSelection::K64Bda) }
        else if same_text(name, "small_bda") || same_text(name, "64_bda") { Some(KernelSelection::SmallBda) }
        else if same_text(name, "m64n32_bda") || same_text(name, "64x32_bda") { Some(KernelSelection::M64N32Bda) }
        else if same_text(name, "m128n64_bda") { Some(KernelSelection::M128N64Bda) }
        else if same_text(name, "m64n128_bda") { Some(KernelSelection::M64N128Bda) }
        else if same_text(name, "large_bda_v4") { Some(KernelSelection::LargeBdaV4) }
        else if same_text(name, "m128n64k64_bda_v4") { Some(KernelSelection::M128N64K64BdaV4) }
        else if same_text(name, "small_bda_v4") { Some(KernelSelection::SmallBdaV4) }
        else if same_text(name, "k64_bda_v4") { Some(KernelSelection::K64BdaV4) }
        else if same_text(name, "m128n64_bda_v4") { Some(KernelSelection::M128N64BdaV4) }
        else if same_text(name, "m64n128_bda_v4") { Some(KernelSelection::M64N128BdaV4) }
        else if same_text(name, "bk16_bda_v4") || same_text(name, "128x128bk16_bda_v4") { Some(KernelSelection::Bk16BdaV4) }
        else if same_text(name, "m128n64k64_bda_v4_tm8_tn8") { Some(KernelSelection::M128N64K64BdaV4Tm8Tn8) }
        else if same_text(name, "m128n64k64_bda_v4_tm16_tn4") { Some(KernelSelection::M128N64K64BdaV4Tm16Tn4) }
        else if same_text(name, "k64_bda_v4_tm8_tn4") { Some(KernelSelection::K64BdaV4Tm8Tn4) }
        else if same_text(name, "k64_bda_v4_tm4_tn8") { Some(KernelSelection::K64BdaV4Tm4Tn8) }
        else if same_text(name, "k64_bda_v4_tm8_tn8") { Some(KernelSelection::K64BdaV4Tm8Tn8) }
        else if same_text(name, "large_bda_v4_aligned") || same_text(name, "128x128_bda_v4_aligned") { Some(KernelSelection::LargeBdaV4Aligned) }
        else if same_text(name, "m128n64k64_bda_v4_aligned") { Some(KernelSelection::M128N64K64BdaV4Aligned) }
        else if same_text(name, "row_bda") || same_text(name, "row") || same_text(name, "gemv_bda") { Some(KernelSelection::RowBda) }
        else if same_text(name, "col_bda") || same_text(name, "col") || same_text(name, "gemv_col_bda") { Some(KernelSelection::ColBda) }
        else if same_text(name, "outer_bda") || same_text(name, "outer") || same_text(name, "k1") { Some(KernelSelection::OuterBda) }
        else if same_text(name, "f16w_large_bda_v4") || same_text(name, "f16w_large") { Some(KernelSelection::F16wLargeBdaV4) }
        else if same_text(name, "f16w_small_bda_v4") || same_text(name, "f16w_small") { Some(KernelSelection::F16wSmallBdaV4) }
        else if same_text(name, "f16w_k64_bda_v4") || same_text(name, "f16w_k64") { Some(KernelSelection::F16wK64BdaV4) }
        else if same_text(name, "f16w_m128n64k64_bda_v4") || same_text(name, "f16w_m128n64k64") { Some(KernelSelection::F16wM128N64K64BdaV4) }
        else if same_text(name, "f16w_row_bda") || same_text(name, "f16w_row") { Some(KernelSelection::F16wRowBda) }
        else if same_text(name, "f16w_row_bda_k16") { Some(KernelSelection::F16wRowBdaK16) }
        else if same_text(name, "f16w_row_bda_k16_v2") { Some(KernelSelection::F16wRowBdaK16V2) }
        else if same_text(name, "f16w_row_bda_k16_packed") { Some(KernelSelection::F16wRowBdaK16Packed) }
        else if same_text(name, "f16w_row_bda_k16_v2_packed") { Some(KernelSelection::F16wRowBdaK16V2Packed) }
        else if same_text(name, "f16w_coopmat_aligned") || same_text(name, "f16w_coopmat") { Some(KernelSelection::F16wCoopmat) }
        else if same_text(name, "f16w_coopmat_m64") { Some(KernelSelection::F16wCoopmatM64) }
        else if same_text(name, "f16w_coopmat_m64n128") { Some(KernelSelection::F16wCoopmatM64N128) }
        else if same_text(name, "f16w_coopmat_m128n64") { Some(KernelSelection::F16wCoopmatM128N64) }
        else if same_text(name, "f16w_a16_coopmat_aligned") || same_text(name, "f16w_a16_coopmat") { Some(KernelSelection::F16wA16Coopmat) }
        else if same_text(name, "f16w_a16_coopmat_m64") { Some(KernelSelection::F16wA16CoopmatM64) }
        else if same_text(name, "f16w_a16_coopmat_m64n128") { Some(KernelSelection::F16wA16CoopmatM64N128) }
        else if same_text(name, "f16w_a16_coopmat_m128n64") { Some(KernelSelection::F16wA16CoopmatM128N64) }
        else if same_text(name, "f16w_cm2") { Some(KernelSelection::F16wCm2) }
        else { None }
    }

    /// The selection that a text stands for: white space around it and the
    /// case of its letters do not matter.
    pub open spec fn parse_result(value: Seq<char>) -> Result<KernelSelection, ErrorView> {
        let name = ascii_lower(trimmed(value));
        match Self::named(name) {
            Some(selection) => Ok(selection),
            None => Err(refused_name(Refusal::UnknownKernel, name)),
        }
    }

    /// The selection that a text stands for.
    pub fn parse(value: &str) -> (r: Result<Self, Error>)
        ensures
            outcome(r) == Self::parse_result(value@),
    {
        let name: String = normalized(value);
        match KernelSelection::by_name(name.as_str()) {
            Some(selection) => Ok(selection),
            None => Err(Error::with_name(Refusal::UnknownKernel, name.as_str())),
        }
    }

    /// The selection that the value of an environment variable stands for;
    /// `Auto` where it is not set.
    pub fn from_env(value: Option<&str>) -> (r: Result<Self, Error>)
        ensures
            value is Some ==> outcome(r) == Self::parse_result(value->0@),
            value is None ==> r == Ok::<KernelSelection, Error>(KernelSelection::Auto),
    {
        match value {
            Some(value) => KernelSelection::parse(value),
            None => Ok(KernelSelection::Auto),
        }
    }
}

/// Registry positions and concrete selections correspond one to one.
pub proof fn registry_index_round_trip(selection: KernelSelection, idx: usize)
    requires
        idx < KERNEL_COUNT,
        !(selection is Auto),
    ensures
        KernelSelection::of_index(idx as int).index_of() == Some(idx),
        selection.index_of() is Some,
        selection.index_of()->0 < KERNEL_COUNT,
        KernelSelection::of_index(selection.index_of()->0 as int) == selection,
        KernelSelection::Auto.index_of() is None,
{
}

/// Surrounding white space does not change what a text selects.
pub proof fn parse_ignores_surrounding_space(before: Seq<char>, value: Seq<char>, after: Seq<char>)
    requires
        forall|i: int| 0 <= i < before.len() ==> crate::text::is_white_space(#[trigger] before[i]),
        forall|i: int| 0 <= i < after.len() ==> crate::text::is_white_space(#[trigger] after[i]),
    ensures
        KernelSelection::parse_result(before + value + after) == KernelSelection::parse_result(value),
{
    crate::text::lemma_trimmed_padding(before, value, after);
}

/// The case of ASCII letters does not change what a text selects.
pub proof fn parse_ignores_case(a: Seq<char>, b: Seq<char>)
    requires
        ascii_lower(a) == ascii_lower(b),
    ensures
        KernelSelection::parse_result(a) == KernelSelection::parse_result(b),
{
    crate::text::lemma_trimmed_case(a, b);
}

} // verus!
