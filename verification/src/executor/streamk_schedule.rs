//! The Stream-K schedule: whole waves of output tiles go to a
//! data-parallel dispatch, and the tail is split evenly over a persistent
//! grid.

use crate::arith::lemma_mul_u32;
use crate::error::{outcome, refused, Error, ErrorView, Refusal};
use vstd::prelude::*;

verus! {

/// A hybrid Stream-K schedule, as the shaders take it.
///
/// Two dispatches share it: a rectangle of `n_tiles` columns covers the
/// tiles below `dp_tiles_total`, one workgroup each; `g_sk` persistent
/// workgroups split the `total_iters_sk` iterations of the other tiles.
#[derive(Copy, Clone, Debug, PartialEq, Eq, Structural)]
pub struct StreamKSchedule {
    pub iters_per_tile: u32,
    pub iters_per_wg_sk: u32,
    pub rem_sk: u32,
    pub n_tiles: u32,
    pub dp_tiles_total: u32,
    pub g_sk: u32,
    pub total_iters_sk: u32,
    /// `dp_tiles_total + g_sk`.
    pub grid_total: u32,
}

/// The size of the persistent grid: two workgroups per multiprocessor.
pub open spec fn preferred_grid(sm_count: u32) -> int {
    let sms = if sm_count == 0 { 1int } else { sm_count as int };
    if 2 * sms > u32::MAX {
        u32::MAX as int
    } else {
        2 * sms
    }
}

fn preferred_grid_size(sm_count: u32) -> (r: u32)
    ensures
        r == preferred_grid(sm_count),
        r >= 2,
{
    let sms: u32 = if sm_count == 0 { 1 } else { sm_count };
    if sms > u32::MAX / 2 {
        u32::MAX
    } else {
        2 * sms
    }
}

/// The largest multiple of `step` that is not above `value`.
pub open spec fn floor_to(value: int, step: int) -> int {
    value / step * step
}

/// The tiles of the data-parallel part: whole waves of the persistent grid,
/// cut down to whole rows of tiles.
pub open spec fn dp_tiles(total_tiles: int, n_tiles: int, grid: int) -> int {
    if total_tiles < grid {
        0
    } else {
        floor_to(floor_to(total_tiles, grid), n_tiles)
    }
}

/// The schedule of a shape over a tile, or why there is none.
pub open spec fn schedule_result(
    m: u32,
    n: u32,
    k: u32,
    bm: u32,
    bn: u32,
    bk: u32,
    sm_count: u32,
) -> Result<StreamKSchedule, ErrorView> {
    if m == 0 || n == 0 || k == 0 || bm == 0 || bn == 0 || bk == 0 {
        Err(refused(Refusal::StreamKZero))
    } else if m % bm != 0 || n % bn != 0 || k % bk != 0 {
        Err(refused(Refusal::StreamKUnaligned))
    } else {
        let n_tiles = n / bn;
        let iters_per_tile = k / bk;
        let total_tiles = (m / bm) * n_tiles;
        let grid = preferred_grid(sm_count);
        let dp = dp_tiles(total_tiles as int, n_tiles as int, grid);
        let total_iters = (total_tiles - dp) * iters_per_tile;
        let g_sk = if total_iters < grid { total_iters } else { grid };
        if total_tiles > u32::MAX {
            Err(refused(Refusal::StreamKTileOverflow))
        } else if total_iters > u32::MAX {
            Err(refused(Refusal::StreamKIterOverflow))
        } else if dp + g_sk > u32::MAX {
            Err(refused(Refusal::StreamKGridOverflow))
        } else {
            Ok(
                StreamKSchedule {
                    iters_per_tile,
                    iters_per_wg_sk: (if g_sk == 0 { 0 } else { total_iters / g_sk }) as u32,
                    rem_sk: (if g_sk == 0 { 0 } else { total_iters % g_sk }) as u32,
                    n_tiles,
                    dp_tiles_total: dp as u32,
                    g_sk: g_sk as u32,
                    total_iters_sk: total_iters as u32,
                    grid_total: (dp + g_sk) as u32,
                },
            )
        }
    }
}

proof fn lemma_floor_to(value: int, step: int)
    requires
        value >= 0,
        step > 0,
    ensures
        0 <= floor_to(value, step) <= value,
        floor_to(value, step) % step == 0,
        value < floor_to(value, step) + step,
        floor_to(value, step) == 0 <==> value < step,
{
    vstd::arithmetic::div_mod::lemma_fundamental_div_mod(value, step);
    let q = value / step;
    assert(step * q == q * step) by (nonlinear_arith);
    vstd::arithmetic::div_mod::lemma_mod_multiples_basic(q, step);
    assert(q >= 0) by (nonlinear_arith)
        requires
            q == value / step,
            value >= 0,
            step > 0,
    ;
    if q >= 1 {
        assert(q * step >= step) by (nonlinear_arith)
            requires
                q >= 1,
                step > 0,
        ;
    } else {
        assert(q * step == 0) by (nonlinear_arith)
            requires
                q == 0,
        ;
    }
}

proof fn lemma_dp_tiles(total_tiles: int, n_tiles: int, grid: int)
    requires
        total_tiles >= 0,
        n_tiles > 0,
        grid > 0,
    ensures
        0 <= dp_tiles(total_tiles, n_tiles, grid) <= total_tiles,
        dp_tiles(total_tiles, n_tiles, grid) % n_tiles == 0,
        total_tiles - dp_tiles(total_tiles, n_tiles, grid) < grid + n_tiles,
{
    lemma_floor_to(total_tiles, grid);
    lemma_floor_to(floor_to(total_tiles, grid), n_tiles);
}

impl StreamKSchedule {
    /// The schedule of a shape that has one.
    pub fn for_shape(m: u32, n: u32, k: u32, bm: u32, bn: u32, bk: u32, sm_count: u32) -> (r: Self)
        requires
            schedule_result(m, n, k, bm, bn, bk, sm_count) is Ok,
        ensures
            schedule_result(m, n, k, bm, bn, bk, sm_count) == Ok::<StreamKSchedule, ErrorView>(r),
    {
        match StreamKSchedule::try_for_shape(m, n, k, bm, bn, bk, sm_count) {
            Ok(schedule) => schedule,
            Err(_) => StreamKSchedule {
                iters_per_tile: 0,
                iters_per_wg_sk: 0,
                rem_sk: 0,
                n_tiles: 0,
                dp_tiles_total: 0,
                g_sk: 0,
                total_iters_sk: 0,
                grid_total: 0,
            },
        }
    }

    /// The schedule of a shape over a tile, for a device with `sm_count`
    /// multiprocessors.
    pub fn try_for_shape(
        m: u32,
        n: u32,
        k: u32,
        bm: u32,
        bn: u32,
        bk: u32,
        sm_count: u32,
    ) -> (r: Result<Self, Error>)
        ensures
            outcome(r) == schedule_result(m, n, k, bm, bn, bk, sm_count),
    {
        if m == 0 || n == 0 || k == 0 || bm == 0 || bn == 0 || bk == 0 {
            return Err(Error::new(Refusal::StreamKZero));
        }
        if m % bm != 0 || n % bn != 0 || k % bk != 0 {
            return Err(Error::new(Refusal::StreamKUnaligned));
        }
        let m_tiles: u32 = m / bm;
        let n_tiles: u32 = n / bn;
        let iters_per_tile: u32 = k / bk;
        proof {
            lemma_floor_to(m as int, bm as int);
            lemma_floor_to(n as int, bn as int);
            lemma_floor_to(k as int, bk as int);
            lemma_mul_u32(m_tiles as int, n_tiles as int);
            vstd::arithmetic::div_mod::lemma_fundamental_div_mod(n as int, bn as int);
            vstd::arithmetic::div_mod::lemma_fundamental_div_mod(k as int, bk as int);
            assert(n_tiles >= 1 && iters_per_tile >= 1) by (nonlinear_arith)
                requires
                    n as int == bn as int * (n as int / bn as int) + 0,
                    k as int == bk as int * (k as int / bk as int) + 0,
                    n > 0,
                    k > 0,
                    n_tiles as int == n as int / bn as int,
                    iters_per_tile as int == k as int / bk as int,
                    n_tiles >= 0,
                    iters_per_tile >= 0,
            ;
        }
        let total_tiles: u32 = match m_tiles.checked_mul(n_tiles) {
            Some(t) => t,
            None => return Err(Error::new(Refusal::StreamKTileOverflow)),
        };
        let grid: u32 = preferred_grid_size(sm_count);
        proof {
            lemma_floor_to(total_tiles as int, grid as int);
            lemma_floor_to(floor_to(total_tiles as int, grid as int), n_tiles as int);
        }
        let dp: u32 = if total_tiles < grid {
            0
        } else {
            let waves: u32 = total_tiles / grid * grid;
            waves / n_tiles * n_tiles
        };
        assert(dp == dp_tiles(total_tiles as int, n_tiles as int, grid as int));
        let tail_tiles: u32 = total_tiles - dp;
        proof {
            lemma_mul_u32(tail_tiles as int, iters_per_tile as int);
        }
        let total_iters_sk: u32 = match tail_tiles.checked_mul(iters_per_tile) {
            Some(t) => t,
            None => return Err(Error::new(Refusal::StreamKIterOverflow)),
        };
        let g_sk: u32 = if total_iters_sk < grid {
            total_iters_sk
        } else {
            grid
        };
        let iters_per_wg_sk: u32 = if g_sk == 0 {
            0
        } else {
            total_iters_sk / g_sk
        };
        let rem_sk: u32 = if g_sk == 0 {
            0
        } else {
            total_iters_sk % g_sk
        };
        let grid_total: u32 = match dp.checked_add(g_sk) {
            Some(t) => t,
            None => return Err(Error::new(Refusal::StreamKGridOverflow)),
        };
        Ok(
            StreamKSchedule {
                iters_per_tile,
                iters_per_wg_sk,
                rem_sk,
                n_tiles,
                dp_tiles_total: dp,
                g_sk,
                total_iters_sk,
                grid_total,
            },
        )
    }

    /// Whether there is no tail.
    pub fn is_pure_dp(&self) -> (r: bool)
        ensures
            r == (self.g_sk == 0),
    {
        self.g_sk == 0
    }

    /// Whether there is nothing but the tail.
    pub fn is_pure_sk(&self) -> (r: bool)
        ensures
            r == (self.dp_tiles_total == 0),
    {
        self.dp_tiles_total == 0
    }

    /// The first tail iteration of persistent workgroup `wg`; the first
    /// `rem_sk` of them take one more than the others.
    pub open spec fn first_iter(self, wg: int) -> int {
        wg * self.iters_per_wg_sk + (if wg < self.rem_sk { wg } else { self.rem_sk as int })
    }
}

/// A schedule covers every tile exactly once: the data-parallel rectangle is
/// made of whole rows, the tail holds the other tiles, its iterations are
/// those of the tail tiles, and the persistent workgroups divide them
/// without gap or overlap, none taking more than one above another.
pub proof fn schedule_covers_every_tile(
    m: u32,
    n: u32,
    k: u32,
    bm: u32,
    bn: u32,
    bk: u32,
    sm_count: u32,
)
    requires
        schedule_result(m, n, k, bm, bn, bk, sm_count) is Ok,
    ensures
        ({
            let s = schedule_result(m, n, k, bm, bn, bk, sm_count)->Ok_0;
            let total_tiles = (m / bm) * (n / bn);
            &&& s.n_tiles == n / bn && s.n_tiles > 0
            &&& s.dp_tiles_total % s.n_tiles == 0
            &&& s.dp_tiles_total <= total_tiles
            &&& s.total_iters_sk == (total_tiles - s.dp_tiles_total) * s.iters_per_tile
            &&& s.iters_per_wg_sk * s.g_sk + s.rem_sk == s.total_iters_sk
            &&& s.g_sk == 0 ==> s.dp_tiles_total == total_tiles && s.rem_sk == 0
            &&& s.g_sk > 0 ==> s.rem_sk < s.g_sk && s.iters_per_wg_sk > 0
            &&& s.g_sk <= preferred_grid(sm_count)
            &&& s.first_iter(0) == 0
            &&& s.first_iter(s.g_sk as int) == s.total_iters_sk
            &&& forall|wg: int| 0 <= wg < s.g_sk ==> 0 < #[trigger] s.first_iter(wg + 1) - s.first_iter(wg)
                <= s.iters_per_wg_sk + 1
        }),
{
    let s = schedule_result(m, n, k, bm, bn, bk, sm_count)->Ok_0;
    let n_tiles = (n / bn) as int;
    let iters = (k / bk) as int;
    let total_tiles = (m / bm) * (n / bn);
    let grid = preferred_grid(sm_count);
    vstd::arithmetic::div_mod::lemma_fundamental_div_mod(n as int, bn as int);
    vstd::arithmetic::div_mod::lemma_fundamental_div_mod(k as int, bk as int);
    assert(n_tiles > 0 && iters > 0) by (nonlinear_arith)
        requires
            n as int == bn * n_tiles + 0,
            k as int == bk * iters + 0,
            n > 0,
            k > 0,
            n_tiles >= 0,
            iters >= 0,
    ;
    lemma_mul_u32((m / bm) as int, n_tiles);
    lemma_dp_tiles(total_tiles as int, n_tiles, grid);
    let tail = total_tiles - s.dp_tiles_total;
    let total = s.total_iters_sk as int;
    let g = s.g_sk as int;
    assert(total == 0 <==> tail == 0) by (nonlinear_arith)
        requires
            total == tail * iters,
            iters > 0,
            tail >= 0,
    ;
    if g > 0 {
        vstd::arithmetic::div_mod::lemma_fundamental_div_mod(total, g);
        assert(g * (total / g) == (total / g) * g) by (nonlinear_arith);
        assert(total / g > 0) by (nonlinear_arith)
            requires
                g > 0,
                total >= g,
        ;
        assert(g * s.iters_per_wg_sk == s.iters_per_wg_sk * g) by (nonlinear_arith);
    }
    let per = s.iters_per_wg_sk as int;
    assert forall|wg: int| 0 <= wg < s.g_sk implies 0 < #[trigger] s.first_iter(wg + 1) - s.first_iter(wg)
        <= per + 1 by {
        assert((wg + 1) * per == wg * per + per) by (nonlinear_arith);
    }
    assert(0 * per == 0);
    assert(s.iters_per_wg_sk * s.g_sk == g * per) by (nonlinear_arith)
        requires
            per == s.iters_per_wg_sk,
            g == s.g_sk,
    ;
}

/// The tail that Stream-K would pick up of an aligned shape with at least one
/// full wave: the tiles of the last, partial wave, and the size of a wave.
/// None where the last wave is full.
pub open spec fn wave_tail(m: u32, n: u32, k: u32, sm_count: u32) -> Option<(u32, u32)> {
    let total = (m / 128) * (n / 128);
    let grid = preferred_grid(sm_count);
    if m % 128 != 0 || n % 128 != 0 || k % 32 != 0 || total > u32::MAX || total < grid || total
        % grid == 0 {
        None
    } else {
        Some(((total % grid) as u32, grid as u32))
    }
}

/// The tiles of the last, partial wave and the size of a wave, for the
/// shapes that Stream-K may suit. It pays where the former is a small
/// fraction of the latter.
pub fn stream_k_tail(m: u32, n: u32, k: u32, sm_count: u32) -> (r: Option<(u32, u32)>)
    ensures
        r == wave_tail(m, n, k, sm_count),
        r matches Some((tail, grid)) ==> 0 < tail < grid,
{
    if m % 128 != 0 || n % 128 != 0 || k % 32 != 0 {
        return None;
    }
    proof {
        lemma_mul_u32((m / 128) as int, (n / 128) as int);
    }
    let total: u32 = match (m / 128).checked_mul(n / 128) {
        Some(t) => t,
        None => return None,
    };
    let grid: u32 = preferred_grid_size(sm_count);
    if total < grid {
        return None;
    }
    let tail: u32 = total % grid;
    if tail == 0 {
        return None;
    }
    Some((tail, grid))
}

} // verus!
