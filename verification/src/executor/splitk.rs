//! How finely to split K.

use crate::arith::{ceil_div, div_ceil, lemma_ceil_div};
use vstd::prelude::*;

verus! {

/// The number of workgroups that keeps a device busy.
pub const TARGET_WGS: u64 = 64;

/// The least K elements per split that are worth a workgroup.
pub const MIN_K_PER_SPLIT: u64 = 32;

/// Output tiles of a batch.
pub open spec fn output_tiles(batch: u32, m: u32, n: u32, tile_m: u32, tile_n: u32) -> int {
    ceil_div(m as int, tile_m as int) * ceil_div(n as int, tile_n as int) * (if batch == 0 {
        1int
    } else {
        batch as int
    })
}

/// The least number of splits that makes [`TARGET_WGS`] workgroups, but not
/// so many that a split has fewer than [`MIN_K_PER_SPLIT`] elements of K.
pub open spec fn default_splits(tiles: int, k: u32) -> int {
    if tiles == 0 {
        1
    } else {
        let raw = ceil_div(TARGET_WGS as int, tiles);
        let most = if k < MIN_K_PER_SPLIT { 1int } else { k as int / MIN_K_PER_SPLIT as int };
        if raw < most {
            raw
        } else {
            most
        }
    }
}

/// Default number of K splits for a shape. The product of the tile counts
/// has to fit.
pub fn default_num_k_splits(batch: u32, m: u32, n: u32, k: u32, tile_m: u32, tile_n: u32) -> (r: u32)
    requires
        tile_m > 0,
        tile_n > 0,
        output_tiles(batch, m, n, tile_m, tile_n) <= u64::MAX,
    ensures
        r == default_splits(output_tiles(batch, m, n, tile_m, tile_n), k),
        1 <= r <= TARGET_WGS,
        r == 1 || r * MIN_K_PER_SPLIT <= k,
{
    let rows: u64 = div_ceil(m, tile_m) as u64;
    let cols: u64 = div_ceil(n, tile_n) as u64;
    let planes: u64 = if batch == 0 { 1 } else { batch as u64 };
    proof {
        crate::arith::lemma_mul_u32(rows as int, cols as int);
    }
    let per_plane: u64 = rows * cols;
    let tiles: u64 = per_plane * planes;
    if tiles == 0 {
        return 1;
    }
    proof {
        lemma_ceil_div(TARGET_WGS as int, tiles as int);
    }
    let quotient: u64 = TARGET_WGS / tiles;
    let raw: u64 = if TARGET_WGS % tiles == 0 { quotient } else { quotient + 1 };
    let most: u64 = if (k as u64) < MIN_K_PER_SPLIT { 1 } else { k as u64 / MIN_K_PER_SPLIT };
    if raw < most {
        raw as u32
    } else {
        most as u32
    }
}

} // verus!
