//! The shape heuristic: which tile class suits a problem that nothing has
//! been measured for.

use crate::context::DeviceKind;
use crate::pipeline::catalog::KernelSelection;
use vstd::prelude::*;

verus! {

/// Output-tile extents of the large kernel. The thresholds of the heuristic
/// are all expressed in such tiles.
pub const LARGE_TILE_M: u32 = 128;

pub const LARGE_TILE_N: u32 = 128;

/// The number of large tiles below which the heuristic prefers the small
/// kernel.
pub open spec fn min_large_tiles_of(kind: DeviceKind) -> u64 {
    match kind {
        DeviceKind::DiscreteGpu => 256,
        DeviceKind::IntegratedGpu => 64,
        DeviceKind::VirtualGpu => u64::MAX,
        DeviceKind::Cpu => u64::MAX,
        DeviceKind::Other => u64::MAX,
    }
}

/// The number of large tiles below which the heuristic prefers the small
/// kernel, by device kind: a beefy discrete GPU needs many to hide memory
/// latency, an integrated one only a few, and for anything else the small
/// kernel is the cautious choice.
pub fn auto_min_large_tiles_for(kind: DeviceKind) -> (r: u64)
    ensures
        r == min_large_tiles_of(kind),
{
    match kind {
        DeviceKind::DiscreteGpu => 256,
        DeviceKind::IntegratedGpu => 64,
        DeviceKind::VirtualGpu => u64::MAX,
        DeviceKind::Cpu => u64::MAX,
        DeviceKind::Other => u64::MAX,
    }
}

/// Whether the small kernel is the better of the two plain tiles: for
/// outputs that large tiles do not cover exactly, for a short K, and for
/// fewer large tiles than keep the device busy.
pub open spec fn prefers_small(m: u32, n: u32, k: u32, min_large_tiles: u64) -> bool {
    ||| m % LARGE_TILE_M != 0
    ||| n % LARGE_TILE_N != 0
    ||| k < 128
    ||| (m / LARGE_TILE_M) * (n / LARGE_TILE_N) < min_large_tiles
}

/// Whether the small kernel is the better of the two plain tiles.
pub fn auto_selects_small_kernel(m: u32, n: u32, k: u32, min_large_tiles: u64) -> (r: bool)
    ensures
        r == prefers_small(m, n, k, min_large_tiles),
{
    if m % LARGE_TILE_M != 0 || n % LARGE_TILE_N != 0 {
        return true;
    }
    if k < 128 {
        return true;
    }
    proof {
        crate::arith::lemma_mul_u32((m / LARGE_TILE_M) as int, (n / LARGE_TILE_N) as int);
    }
    let large_tiles: u64 = (m / LARGE_TILE_M) as u64 * (n / LARGE_TILE_N) as u64;
    large_tiles < min_large_tiles
}

/// `value * factor`, held at the largest number.
pub open spec fn saturated(value: int) -> int {
    if value > u32::MAX {
        u32::MAX as int
    } else {
        value
    }
}

fn saturating_times(value: u32, factor: u32) -> (r: u32)
    ensures
        r == saturated(value * factor),
{
    proof {
        crate::arith::lemma_mul_u32(value as int, factor as int);
    }
    let product: u64 = value as u64 * factor as u64;
    if product > u32::MAX as u64 {
        u32::MAX
    } else {
        product as u32
    }
}

/// The smaller output extent.
pub open spec fn min_extent(m: u32, n: u32) -> u32 {
    if m <= n { m } else { n }
}

/// The larger output extent.
pub open spec fn max_extent(m: u32, n: u32) -> u32 {
    if m <= n { n } else { m }
}

/// No output extent is more than a quarter longer than the other.
pub open spec fn near_square(m: u32, n: u32) -> bool {
    max_extent(m, n) <= saturated(min_extent(m, n) * 5) / 4
}

/// Small near-square outputs: the 64x32 tile wastes least at the edges. Long
/// batches fill the device without it.
pub open spec fn suits_m64n32(batch: u32, m: u32, n: u32, k: u32) -> bool {
    &&& k >= 128
    &&& min_extent(m, n) >= 128
    &&& max_extent(m, n) <= 320
    &&& near_square(m, n)
    &&& batch == 1 || (max_extent(m, n) <= 256 && batch < 8)
}

/// Mid-size near-square outputs: the deep-K 64x64 tile amortizes its strip.
pub open spec fn suits_square_k64(batch: u32, m: u32, n: u32, k: u32) -> bool {
    batch == 1 && 192 <= min_extent(m, n) <= 480 && near_square(m, n) && k >= 256
}

/// Medium and large single products of moderate aspect, and short-K large
/// ones: the 128x64 deep-K tile.
pub open spec fn suits_m128n64k64(m: u32, n: u32, k: u32) -> bool {
    let min_mn = min_extent(m, n);
    let max_mn = max_extent(m, n);
    ||| 512 <= min_mn < 2048 && max_mn <= saturated(min_mn * 5) && k >= 256
    ||| m == n && (m == 512 || m == 1024) && k >= 512
    ||| min_mn >= 2048 && 128 <= k <= 1024
    ||| 1024 <= min_mn < 2048 && max_mn >= 4096 && k >= 512
}

/// Skinny single products: the deep-K 64x64 tile.
pub open spec fn suits_skinny_k64(m: u32, n: u32, k: u32) -> bool {
    let min_mn = min_extent(m, n);
    let max_mn = max_extent(m, n);
    ||| min_mn <= 128 && max_mn >= 512 && k >= 256
    ||| min_mn <= 256 && max_mn == saturated(min_mn * 2) && k >= 256
}

/// The tile class that the heuristic picks; the first rule that applies
/// decides.
pub open spec fn auto_choice(
    batch: u32,
    m: u32,
    n: u32,
    k: u32,
    min_large_tiles: u64,
) -> KernelSelection {
    if suits_m64n32(batch, m, n, k) {
        KernelSelection::M64N32
    } else if suits_square_k64(batch, m, n, k) {
        KernelSelection::K64
    } else if batch == 1 && suits_m128n64k64(m, n, k) {
        KernelSelection::M128N64K64
    } else if batch == 1 && k <= 128 && m >= 2048 && n >= 2048 {
        KernelSelection::M128N64
    } else if batch == 1 && suits_skinny_k64(m, n, k) {
        KernelSelection::K64
    } else if prefers_small(m, n, k, min_large_tiles) {
        KernelSelection::Small
    } else {
        KernelSelection::Large
    }
}

/// The tile class that the heuristic picks.
pub fn auto_select_kernel(
    batch: u32,
    m: u32,
    n: u32,
    k: u32,
    min_large_tiles: u64,
) -> (r: KernelSelection)
    ensures
        r == auto_choice(batch, m, n, k, min_large_tiles),
{
    let min_mn: u32 = if m <= n { m } else { n };
    let max_mn: u32 = if m <= n { n } else { m };
    let square: bool = max_mn <= saturating_times(min_mn, 5) / 4;
    if k >= 128 && min_mn >= 128 && max_mn <= 320 && square && (batch == 1 || (max_mn <= 256
        && batch < 8)) {
        return KernelSelection::M64N32;
    }
    if batch == 1 && 192 <= min_mn && min_mn <= 480 && square && k >= 256 {
        return KernelSelection::K64;
    }
    if batch == 1 {
        if 512 <= min_mn && min_mn < 2048 && max_mn <= saturating_times(min_mn, 5) && k >= 256 {
            return KernelSelection::M128N64K64;
        }
        if m == n && (m == 512 || m == 1024) && k >= 512 {
            return KernelSelection::M128N64K64;
        }
        if min_mn >= 2048 && 128 <= k && k <= 1024 {
            return KernelSelection::M128N64K64;
        }
        if min_mn >= 1024 && min_mn < 2048 && max_mn >= 4096 && k >= 512 {
            return KernelSelection::M128N64K64;
        }
        if k <= 128 && m >= 2048 && n >= 2048 {
            return KernelSelection::M128N64;
        }
        if min_mn <= 128 && max_mn >= 512 && k >= 256 {
            return KernelSelection::K64;
        }
        if min_mn <= 256 && max_mn == saturating_times(min_mn, 2) && k >= 256 {
            return KernelSelection::K64;
        }
    }
    if auto_selects_small_kernel(m, n, k, min_large_tiles) {
        KernelSelection::Small
    } else {
        KernelSelection::Large
    }
}

/// The heuristic picks a plain tile class, and the large kernel only for
/// outputs that its tiles cover exactly, a K that amortizes them and enough
/// of them.
pub proof fn auto_choice_is_a_tile_class(batch: u32, m: u32, n: u32, k: u32, min_large_tiles: u64)
    ensures
        ({
            let choice = auto_choice(batch, m, n, k, min_large_tiles);
            &&& choice is M64N32 || choice is K64 || choice is M128N64K64 || choice is M128N64
                || choice is Small || choice is Large
            &&& choice is Large ==> m % 128 == 0 && n % 128 == 0 && k >= 128 && (m / 128) * (n
                / 128) >= min_large_tiles
            &&& choice is M128N64K64 || choice is M128N64 ==> batch == 1
        }),
{
}

/// The heuristic treats the two output extents alike.
pub proof fn auto_choice_is_symmetric(batch: u32, m: u32, n: u32, k: u32, min_large_tiles: u64)
    ensures
        auto_choice(batch, m, n, k, min_large_tiles) == auto_choice(batch, n, m, k, min_large_tiles),
{
    assert((m / LARGE_TILE_M) * (n / LARGE_TILE_N) == (n / LARGE_TILE_M) * (m / LARGE_TILE_N))
        by (nonlinear_arith);
}

} // verus!
