//! Shape-based kernel routing: row-GEMV pack tiles, cooperative-matrix
//! tiles, and promotion to the pointer-addressed and f16-weight families.

use crate::pipeline::catalog::{name_weights_f16, KernelSelection};
use crate::pipeline::selection::auto_choice;
use vstd::prelude::*;

verus! {

/// Whether an f16-weight row GEMV takes the sixteen-slice 32-column tile:
/// for a deep K, a narrow N, or a shape that is about square.
pub open spec fn row_uses_k16(k: u32, n: u32) -> bool {
    k >= 4096 || n <= 512 || (k >= 2048 && n <= 2048)
}

/// Whether an f16-weight row GEMV takes the sixteen-slice 32-column tile
/// rather than the 64-column one.
pub fn f16w_row_uses_k16(k: u32, n: u32) -> (r: bool)
    ensures
        r == row_uses_k16(k, n),
{
    k >= 4096 || n <= 512 || (k >= 2048 && n <= 2048)
}

/// The columns per tile of a packed B.
pub open spec fn row_tile_n(k: u32, n: u32) -> u32 {
    if row_uses_k16(k, n) || n % 64 != 0 {
        32
    } else {
        64
    }
}

/// The columns per tile of a packed B, `[N/tile_n][K][tile_n]`, as
/// [`f16w_row_packed_selection`] reads it.
pub fn f16w_row_tile_n(k: u32, n: u32) -> (r: u32)
    ensures
        r == row_tile_n(k, n),
{
    if f16w_row_uses_k16(k, n) || n % 64 != 0 {
        32
    } else {
        64
    }
}

/// The row GEMV kernel for f16 weights.
pub open spec fn row_choice(k: u32, n: u32) -> KernelSelection {
    if row_uses_k16(k, n) {
        KernelSelection::F16wRowBdaK16
    } else {
        KernelSelection::F16wRowBdaK16V2
    }
}

/// The row GEMV kernel for f16 weights.
pub fn f16w_row_selection(k: u32, n: u32) -> (r: KernelSelection)
    ensures
        r == row_choice(k, n),
{
    if f16w_row_uses_k16(k, n) {
        KernelSelection::F16wRowBdaK16
    } else {
        KernelSelection::F16wRowBdaK16V2
    }
}

/// The row GEMV kernel for packed f16 weights.
pub open spec fn packed_row_choice(k: u32, n: u32) -> KernelSelection {
    if row_tile_n(k, n) == 32 {
        KernelSelection::F16wRowBdaK16Packed
    } else {
        KernelSelection::F16wRowBdaK16V2Packed
    }
}

/// The row GEMV kernel for packed f16 weights.
pub fn f16w_row_packed_selection(k: u32, n: u32) -> (r: KernelSelection)
    ensures
        r == packed_row_choice(k, n),
{
    if f16w_row_uses_k16(k, n) || n % 64 != 0 {
        KernelSelection::F16wRowBdaK16Packed
    } else {
        KernelSelection::F16wRowBdaK16V2Packed
    }
}

/// A cooperative-matrix output tile.
#[derive(Copy, Clone, Debug, PartialEq, Eq, Structural)]
pub enum CoopmatTile {
    T128,
    T64,
    T64x128,
    T128x64,
}

impl CoopmatTile {
    /// Rows per tile.
    pub open spec fn rows(self) -> u32 {
        match self {
            CoopmatTile::T128 => 128,
            CoopmatTile::T64 => 64,
            CoopmatTile::T64x128 => 64,
            CoopmatTile::T128x64 => 128,
        }
    }

    /// Columns per tile.
    pub open spec fn cols(self) -> u32 {
        match self {
            CoopmatTile::T128 => 128,
            CoopmatTile::T64 => 64,
            CoopmatTile::T64x128 => 128,
            CoopmatTile::T128x64 => 64,
        }
    }
}

/// How many 128x128 tiles a batch of outputs takes.
pub open spec fn tiles_128(batch: u32, m: u32, n: u32) -> int {
    batch * (m as int / 128) * (n as int / 128)
}

/// The cooperative-matrix tile for an output: none unless both extents are
/// multiples of 64. Short outputs take the 64x64 tile, at 512 rows a wide
/// one 128x64 and a tall one 64x128. Taller outputs take the largest tile
/// that covers them exactly, but 64x64 in place of fewer than 96 tiles of
/// 128x128.
pub open spec fn coopmat_choice(batch: u32, m: u32, n: u32) -> Option<CoopmatTile> {
    if m % 64 != 0 || n % 64 != 0 {
        None
    } else if m <= 512 {
        if m == 512 && n > 2048 {
            Some(CoopmatTile::T128x64)
        } else if m == 512 && n % 128 == 0 && n < 128 {
            Some(CoopmatTile::T64x128)
        } else {
            Some(CoopmatTile::T64)
        }
    } else if m % 128 == 0 && n % 128 == 0 {
        if tiles_128(batch, m, n) < 96 {
            Some(CoopmatTile::T64)
        } else {
            Some(CoopmatTile::T128)
        }
    } else if m % 128 == 0 {
        Some(CoopmatTile::T128x64)
    } else if n % 128 == 0 {
        Some(CoopmatTile::T64x128)
    } else {
        Some(CoopmatTile::T64)
    }
}

/// The cooperative-matrix tile for an output.
pub fn coopmat_tile(batch: u32, m: u32, n: u32) -> (r: Option<CoopmatTile>)
    ensures
        r == coopmat_choice(batch, m, n),
{
    if m % 64 != 0 || n % 64 != 0 {
        return None;
    }
    let m128: bool = m % 128 == 0;
    let n128: bool = n % 128 == 0;
    if m <= 512 {
        if m == 512 && m128 && n > 4 * m {
            return Some(CoopmatTile::T128x64);
        }
        if m == 512 && n128 && n < 128 {
            return Some(CoopmatTile::T64x128);
        }
        return Some(CoopmatTile::T64);
    }
    if !m128 || !n128 {
        return Some(
            if m128 {
                CoopmatTile::T128x64
            } else if n128 {
                CoopmatTile::T64x128
            } else {
                CoopmatTile::T64
            },
        );
    }
    let rows: u64 = (m / 128) as u64;
    let cols: u64 = (n / 128) as u64;
    proof {
        let b = batch as int;
        let bm = b * rows as int;
        assert(0 <= bm <= 0xFFFF_FFFF * 0x0200_0000) by (nonlinear_arith)
            requires
                0 <= b <= 0xFFFF_FFFF,
                0 <= rows <= 0x0200_0000,
                bm == b * rows as int,
        ;
        assert(0 <= bm * cols as int) by (nonlinear_arith)
            requires
                0 <= bm,
                cols >= 0,
        ;
    }
    let per_column: u64 = batch as u64 * rows;
    let few: bool = match per_column.checked_mul(cols) {
        Some(tiles) => tiles < 96,
        None => false,
    };
    Some(if few { CoopmatTile::T64 } else { CoopmatTile::T128 })
}

/// The cooperative-matrix kernel with a given tile.
pub open spec fn coopmat_kernel(tile: CoopmatTile, a16: bool) -> KernelSelection {
    match tile {
        CoopmatTile::T128 => if a16 {
            KernelSelection::F16wA16Coopmat
        } else {
            KernelSelection::F16wCoopmat
        },
        CoopmatTile::T64 => if a16 {
            KernelSelection::F16wA16CoopmatM64
        } else {
            KernelSelection::F16wCoopmatM64
        },
        CoopmatTile::T64x128 => if a16 {
            KernelSelection::F16wA16CoopmatM64N128
        } else {
            KernelSelection::F16wCoopmatM64N128
        },
        CoopmatTile::T128x64 => if a16 {
            KernelSelection::F16wA16CoopmatM128N64
        } else {
            KernelSelection::F16wCoopmatM128N64
        },
    }
}

/// The cooperative-matrix kernel for an output, where there is a tile for
/// it.
pub fn coopmat_selection(batch: u32, m: u32, n: u32, a16: bool) -> (r: Option<KernelSelection>)
    ensures
        r == (match coopmat_choice(batch, m, n) {
            Some(tile) => Some(coopmat_kernel(tile, a16)),
            None => None,
        }),
{
    match coopmat_tile(batch, m, n) {
        None => None,
        Some(CoopmatTile::T128) => Some(
            if a16 {
                KernelSelection::F16wA16Coopmat
            } else {
                KernelSelection::F16wCoopmat
            },
        ),
        Some(CoopmatTile::T64) => Some(
            if a16 {
                KernelSelection::F16wA16CoopmatM64
            } else {
                KernelSelection::F16wCoopmatM64
            },
        ),
        Some(CoopmatTile::T64x128) => Some(
            if a16 {
                KernelSelection::F16wA16CoopmatM64N128
            } else {
                KernelSelection::F16wCoopmatM64N128
            },
        ),
        Some(CoopmatTile::T128x64) => Some(
            if a16 {
                KernelSelection::F16wA16CoopmatM128N64
            } else {
                KernelSelection::F16wCoopmatM128N64
            },
        ),
    }
}

/// Whether an f16-activation product takes the 64x64 cooperative-matrix
/// tile rather than the 128x128 one: wherever [`coopmat_tile`] does not ask
/// for the latter.
pub fn coopmat_prefers_m64(batch: u32, m: u32, n: u32) -> (r: bool)
    ensures
        r == (coopmat_choice(batch, m, n) != Some(CoopmatTile::T128)),
{
    match coopmat_tile(batch, m, n) {
        Some(CoopmatTile::T128) => false,
        _ => true,
    }
}

/// The f16-weight sibling of a tile class.
pub open spec fn f16w_sibling(tile: KernelSelection) -> KernelSelection {
    match tile {
        KernelSelection::Large => KernelSelection::F16wLargeBdaV4,
        KernelSelection::M64N128 => KernelSelection::F16wLargeBdaV4,
        KernelSelection::M128N64 => KernelSelection::F16wM128N64K64BdaV4,
        KernelSelection::M128N64K64 => KernelSelection::F16wM128N64K64BdaV4,
        KernelSelection::K64 => KernelSelection::F16wK64BdaV4,
        _ => KernelSelection::F16wSmallBdaV4,
    }
}

/// The f16-weight sibling of a tile class. Coarser than the f32 family:
/// measuring refines the choice per shape.
pub fn to_f16w(tile: KernelSelection) -> (r: KernelSelection)
    ensures
        r == f16w_sibling(tile),
{
    match tile {
        KernelSelection::Large => KernelSelection::F16wLargeBdaV4,
        KernelSelection::M64N128 => KernelSelection::F16wLargeBdaV4,
        KernelSelection::M128N64 => KernelSelection::F16wM128N64K64BdaV4,
        KernelSelection::M128N64K64 => KernelSelection::F16wM128N64K64BdaV4,
        KernelSelection::K64 => KernelSelection::F16wK64BdaV4,
        _ => KernelSelection::F16wSmallBdaV4,
    }
}

/// The pointer-addressed sibling of a tile class; a kernel without one
/// stands for itself.
pub open spec fn bda_sibling(tile: KernelSelection) -> KernelSelection {
    match tile {
        KernelSelection::Large => KernelSelection::LargeBdaV4,
        KernelSelection::Small => KernelSelection::SmallBdaV4,
        KernelSelection::M128N64K64 => KernelSelection::M128N64K64BdaV4,
        KernelSelection::K64 => KernelSelection::K64BdaV4Tm8Tn4,
        KernelSelection::M128N64 => KernelSelection::M128N64BdaV4,
        KernelSelection::M64N128 => KernelSelection::M64N128BdaV4,
        KernelSelection::M64N32 => KernelSelection::M64N32Bda,
        other => other,
    }
}

/// The pointer-addressed sibling of a tile class. The vectorized bodies win
/// wherever a tile has one; the 64x32 tile has only the plain body.
pub fn maybe_to_bda(tile: KernelSelection) -> (r: KernelSelection)
    ensures
        r == bda_sibling(tile),
{
    match tile {
        KernelSelection::Large => KernelSelection::LargeBdaV4,
        KernelSelection::Small => KernelSelection::SmallBdaV4,
        KernelSelection::M128N64K64 => KernelSelection::M128N64K64BdaV4,
        KernelSelection::K64 => KernelSelection::K64BdaV4Tm8Tn4,
        KernelSelection::M128N64 => KernelSelection::M128N64BdaV4,
        KernelSelection::M64N128 => KernelSelection::M64N128BdaV4,
        KernelSelection::M64N32 => KernelSelection::M64N32Bda,
        other => other,
    }
}

/// A packed B is laid out in the columns per tile that the packed kernel
/// reads; where that is 64, N is a whole number of tiles.
pub proof fn packed_tile_matches_kernel(k: u32, n: u32)
    ensures
        packed_row_choice(k, n).spec_of().tile_n == row_tile_n(k, n),
        row_tile_n(k, n) == 64 ==> n % 64 == 0,
        row_choice(k, n).spec_of().tile_n == (if row_uses_k16(k, n) { 32u32 } else { 64 }),
{
}

/// A cooperative-matrix tile exists exactly for outputs in multiples of 64,
/// it covers the output exactly, and the kernel that is chosen has it.
pub proof fn coopmat_tile_covers_output(batch: u32, m: u32, n: u32, a16: bool)
    ensures
        coopmat_choice(batch, m, n) is Some <==> m % 64 == 0 && n % 64 == 0,
        coopmat_choice(batch, m, n) matches Some(tile) ==> {
            &&& m % tile.rows() == 0
            &&& n % tile.cols() == 0
            &&& coopmat_kernel(tile, a16).spec_of().tile_m == tile.rows()
            &&& coopmat_kernel(tile, a16).spec_of().tile_n == tile.cols()
        },
{
}

/// Whatever tile class the heuristic picks, its pointer-addressed sibling
/// tiles the output alike and binds no descriptors.
pub proof fn bda_sibling_keeps_the_tile(batch: u32, m: u32, n: u32, k: u32, min_large_tiles: u64)
    ensures
        ({
            let tile = auto_choice(batch, m, n, k, min_large_tiles);
            let sibling = bda_sibling(tile);
            &&& !sibling.spec_of().uses_descriptors
            &&& sibling.spec_of().tile_m == tile.spec_of().tile_m
            &&& sibling.spec_of().tile_n == tile.spec_of().tile_n
            &&& sibling.spec_of().tile_k == tile.spec_of().tile_k
        }),
{
}

/// Every f16-weight sibling reads f16 weights and binds no descriptors.
pub proof fn f16w_sibling_reads_f16(tile: KernelSelection)
    ensures
        name_weights_f16(f16w_sibling(tile).spec_of().name@),
        !f16w_sibling(tile).spec_of().uses_descriptors,
{
    reveal_strlit("f16w_");
    reveal_strlit("f16w_large_bda_v4");
    reveal_strlit("f16w_m128n64k64_bda_v4");
    reveal_strlit("f16w_k64_bda_v4");
    reveal_strlit("f16w_small_bda_v4");
    let name = f16w_sibling(tile).spec_of().name@;
    assert(name.subrange(0, 5) =~= "f16w_"@);
}

} // verus!
