//! What measurements come to, and what is picked without any.

use crate::executor::splitk2::{heuristic_split, stage1_tile};
use crate::executor::streamk_schedule::wave_tail;
use crate::executor::tuning::{
    fastest, fastest_is_a_minimum, first_position, leq, measured_medians, median_of, samples_of,
    split_of, time_of, winner_of,
};
use crate::semantics::memory::covers;
use vstd::prelude::*;
use vstd::relations::{sorted_by, total_ordering};

verus! {

/// The median of ascending times is the middle one, or half the sum of the two
/// middle ones, rounded down.
pub proof fn median_is_in_the_middle(times: Seq<u64>)
    requires
        times.len() > 0,
        forall|i: int, j: int| 0 <= i < j < times.len() ==> times[i] <= times[j],
    ensures
        median_of(times) matches Some(median) && {
            let n = times.len() as int;
            &&& n % 2 == 1 ==> median == times[n / 2]
            &&& n % 2 == 0 ==> 2 * median <= times[n / 2 - 1] + times[n / 2] <= 2 * median + 1
        },
{
    assert(total_ordering(leq()));
    times.lemma_sort_by_ensures(leq());
    assert(sorted_by(times, leq()));
    vstd::seq_lib::lemma_sorted_unique(times, times.sort_by(leq()), leq());
    assert(times.sort_by(leq()) =~= times);
}

/// The order in which times were taken does not change their median.
pub proof fn median_ignores_order(one: Seq<u64>, other: Seq<u64>)
    requires
        one.to_multiset() =~= other.to_multiset(),
    ensures
        median_of(one) == median_of(other),
{
    assert(total_ordering(leq()));
    one.lemma_sort_by_ensures(leq());
    other.lemma_sort_by_ensures(leq());
    vstd::seq_lib::lemma_sorted_unique(one.sort_by(leq()), other.sort_by(leq()), leq());
    assert(one.sort_by(leq()) =~= other.sort_by(leq()));
}

/// The times of the warmup round do not count: where two measurements agree on
/// the others, every candidate has the same median.
pub proof fn warmup_does_not_count(
    len: int,
    order: Seq<(u32, usize)>,
    one: Seq<Option<u64>>,
    other: Seq<Option<u64>>,
)
    requires
        0 <= len,
        one.len() == order.len(),
        other.len() == order.len(),
        forall|i: int| 0 <= i < order.len() && (#[trigger] order[i]).0 > 0 ==> one[i] == other[i],
    ensures
        measured_medians(len, order, one) == measured_medians(len, order, other),
{
    assert forall|c: int| 0 <= c < len implies samples_of(order, one, c, order.len() as int)
        == samples_of(order, other, c, order.len() as int) by {
        lemma_same_samples(order, one, other, c, order.len() as int);
    }
    assert(measured_medians(len, order, one) =~= measured_medians(len, order, other));
}

proof fn lemma_same_samples(
    order: Seq<(u32, usize)>,
    one: Seq<Option<u64>>,
    other: Seq<Option<u64>>,
    c: int,
    upto: int,
)
    requires
        0 <= upto <= order.len(),
        forall|i: int| 0 <= i < order.len() && (#[trigger] order[i]).0 > 0 ==> one[i] == other[i],
    ensures
        samples_of(order, one, c, upto) == samples_of(order, other, c, upto),
    decreases upto,
{
    if upto > 0 {
        lemma_same_samples(order, one, other, c, upto - 1);
        assert(order[upto - 1].0 > 0 ==> one[upto - 1] == other[upto - 1]);
    }
}

/// Every time of a candidate counts that was taken behind the warmup round:
/// another one makes its samples longer by one, and those of no other.
pub proof fn every_measured_time_counts(
    order: Seq<(u32, usize)>,
    times: Seq<Option<u64>>,
    c: int,
    upto: int,
)
    requires
        0 < upto <= order.len(),
    ensures
        samples_of(order, times, c, upto) == samples_of(order, times, c, upto - 1) + (if order[upto
            - 1].0 > 0 && order[upto - 1].1 == c && times[upto - 1] is Some {
            seq![times[upto - 1]->0]
        } else {
            Seq::empty()
        }),
{
    let front = samples_of(order, times, c, upto - 1);
    assert(front + Seq::<u64>::empty() =~= front);
    if times[upto - 1] is Some {
        assert(front + seq![times[upto - 1]->0] =~= front.push(times[upto - 1]->0));
    }
}

/// The winner of a measurement is a measured candidate. It is the fastest one,
/// more than two in a hundred below the heuristic's pick where that was
/// measured; or it is the heuristic's pick, and no candidate is that much
/// below it.
pub proof fn winner_is_fastest_or_trusted(
    candidates: Seq<usize>,
    medians: Seq<Option<u64>>,
    heuristic: usize,
)
    requires
        candidates.len() == medians.len(),
    ensures
        winner_of(candidates, medians, heuristic) is Err <==> forall|i: int|
            0 <= i < medians.len() ==> medians[i] is None,
        winner_of(candidates, medians, heuristic) matches Ok((slot, ns)) ==> {
            &&& exists|i: int|
                0 <= i < candidates.len() && #[trigger] candidates[i] == slot && medians[i] == Some(
                    ns,
                )
            &&& slot != heuristic ==> {
                &&& forall|i: int|
                    0 <= i < medians.len() && medians[i] is Some ==> ns <= (#[trigger] medians[i])->0
                &&& time_of(candidates, medians, heuristic) matches Some(prior) ==> 100 * ns < 98
                    * prior
            }
            &&& slot == heuristic && time_of(candidates, medians, heuristic) is Some ==> forall|i: int|
                0 <= i < medians.len() && medians[i] is Some ==> 100 * (#[trigger] medians[i])->0
                    >= 98 * ns || medians[i]->0 == ns
        },
{
    fastest_is_a_minimum(medians, medians.len() as int);
    if let Some(b) = fastest(medians, medians.len() as int) {
        assert(candidates[b] == candidates[b]);
        if exists|i: int| first_position(candidates, heuristic, i) {
            let i = choose|i: int| first_position(candidates, heuristic, i);
            assert(candidates[i] == heuristic);
        }
    }
}

/// A split is taken exactly where one was measured more than two in a hundred
/// below the winner without a split, and the fastest one then is.
pub proof fn split_is_taken_where_it_pays(counts: Seq<u32>, medians: Seq<Option<u64>>, best: u64)
    requires
        counts.len() == medians.len(),
    ensures
        split_of(counts, medians, best) is None <==> forall|i: int|
            0 <= i < medians.len() && medians[i] is Some ==> 100 * (#[trigger] medians[i])->0 >= 98
                * best,
        split_of(counts, medians, best) matches Some(count) ==> exists|i: int|
            0 <= i < counts.len() && #[trigger] counts[i] == count && medians[i] is Some && forall|
                j: int,
            |
                0 <= j < medians.len() && medians[j] is Some ==> medians[i]->0 <= (
                #[trigger] medians[j])->0,
{
    fastest_is_a_minimum(medians, medians.len() as int);
    if let Some(b) = fastest(medians, medians.len() as int) {
        assert(counts[b] == counts[b]);
        assert(medians[b] is Some);
    }
}

/// The side of the output tiles of a split's first stage.
pub open spec fn tile_side(m: u32, n: u32) -> int {
    if m >= 128 && n >= 128 {
        128
    } else {
        64
    }
}

/// A shape that nothing has been measured for is split only where K is deep
/// and at most sixteen tiles cover the output, into one of five counts, none
/// of which leaves fewer than sixty-four elements of K to a split.
pub proof fn unmeasured_splits_keep_enough_depth(
    batch: u32,
    m: u32,
    n: u32,
    k: u32,
    rows: int,
    cols: int,
)
    requires
        heuristic_split(batch, m, n, k) is Some,
        covers(rows, tile_side(m, n), m as int),
        covers(cols, tile_side(m, n), n as int),
    ensures
        ({
            let splits = heuristic_split(batch, m, n, k)->0;
            &&& splits == 4 || splits == 8 || splits == 16 || splits == 32 || splits == 64
            &&& k >= 1024 && batch > 0 && m > 1 && n > 1
            &&& 64 * splits <= k
            &&& batch * rows * cols <= 16
        }),
{
    let splits = heuristic_split(batch, m, n, k)->0;
    let tile = tile_side(m, n);
    lemma_same_cover(rows, tile, m as int);
    lemma_same_cover(cols, tile, n as int);
    assert(stage1_tile(m, n) == tile);
    let tiles = crate::executor::splitk2::stage1_tiles(batch, m, n);
    assert(tiles == batch * rows * cols);
    let least = (crate::executor::splitk2::split_target(batch, m, n, k)->0).1;
    let most = crate::executor::splitk2::most_splits(batch, m, n, k);
    assert(least == 128 || least == 64);
    assert(tiles >= 1) by (nonlinear_arith)
        requires
            tiles == batch * rows * cols,
            batch >= 1,
            rows >= 1,
            cols >= 1,
    ;
    if least == 128 {
        assert(k as int / least == k as int / 128);
    } else {
        assert(k as int / least == k as int / 64);
    }
    assert(splits <= most);
}

proof fn lemma_same_cover(groups: int, each: int, items: int)
    requires
        covers(groups, each, items),
        each > 0,
        items > 0,
    ensures
        groups == crate::arith::ceil_div(items, each),
        groups >= 1,
{
    crate::arith::lemma_ceil_div(items, each);
    let g = crate::arith::ceil_div(items, each);
    assert(groups == g) by (nonlinear_arith)
        requires
            items <= groups * each,
            groups > 0 ==> (groups - 1) * each < items,
            items <= g * each < items + each,
            each > 0,
            items > 0,
    ;
}

/// The tail that Stream-K may pick up is what is left of the tiles behind the
/// whole waves of twice as many workgroups as there are multiprocessors, and
/// there is at least one such wave.
pub proof fn tail_is_left_behind_whole_waves(m: u32, n: u32, k: u32, sm_count: u32)
    requires
        0 < sm_count <= 0x7FFF_FFFF,
        wave_tail(m, n, k, sm_count) is Some,
    ensures
        ({
            let (tail, wave) = wave_tail(m, n, k, sm_count)->0;
            &&& wave == 2 * sm_count
            &&& 0 < tail < wave
            &&& m % 128 == 0 && n % 128 == 0 && k % 32 == 0
            &&& exists|waves: int|
                waves >= 1 && (m / 128) * (n / 128) == #[trigger] (waves * wave) + tail
        }),
{
    let (tail, wave) = wave_tail(m, n, k, sm_count)->0;
    let total = (m / 128) * (n / 128);
    let w = wave as int;
    vstd::arithmetic::div_mod::lemma_fundamental_div_mod(total, w);
    vstd::arithmetic::div_mod::lemma_mod_bound(total, w);
    let waves = total / w;
    assert(w * waves == waves * w) by (nonlinear_arith);
    assert(waves >= 1) by (nonlinear_arith)
        requires
            total == w * waves + tail,
            total >= w,
            0 <= tail < w,
            w > 0,
    ;
    assert(total == waves * wave + tail);
}

} // verus!
