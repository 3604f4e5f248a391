//! Measured kernel selection: which kernels are tried on a shape, in which
//! order, and which one wins.

use crate::context::VulkanContext;
use crate::error::{outcome, refused, refused_name, Error, ErrorView, Refusal};
use crate::executor::plan::{slot_kernel, Executor, ExecutorView};
use crate::executor::splitk2::{auto_fits, auto_route_fits};
use crate::arith::{ceil_div, div_ceil, lemma_mul_u32};
use crate::matmul::resolution::{resolve_raw, ResolvedMatmul};
use crate::pipeline::catalog::{KernelSpec, KERNEL_COUNT};
use crate::pipeline::registry::kernel_grid_fits;
use crate::pipeline::tuning::{TuneEntry, TuneKey};
use vstd::prelude::*;
use vstd::relations::{sorted_by, total_ordering};

verus! {

/// The order of numbers.
pub open spec fn leq() -> spec_fn(u64, u64) -> bool {
    |a: u64, b: u64| a <= b
}

/// The median of measurements: the middle one in order, or the mean of the
/// two middle ones, rounded down.
pub open spec fn median_of(samples: Seq<u64>) -> Option<u64> {
    let s = samples.sort_by(leq());
    let mid = s.len() as int / 2;
    if s.len() == 0 {
        None
    } else if s.len() % 2 == 0 {
        Some(((s[mid - 1] + s[mid]) / 2) as u64)
    } else {
        Some(s[mid])
    }
}

/// A sorted copy of `samples`.
fn sorted(samples: &[u64]) -> (r: Vec<u64>)
    ensures
        r@ == samples@.sort_by(leq()),
        r@.len() == samples@.len(),
{
    let mut out: Vec<u64> = Vec::new();
    let mut i: usize = 0;
    assert(samples@.take(0) =~= out@);
    while i < samples.len()
        invariant
            i <= samples@.len(),
            out@.len() == i,
            sorted_by(out@, leq()),
            out@.to_multiset() =~= samples@.take(i as int).to_multiset(),
        decreases samples.len() - i,
    {
        let value: u64 = samples[i];
        let mut at: usize = 0;
        while at < out.len() && out[at] <= value
            invariant
                at <= out@.len(),
                forall|j: int| 0 <= j < at ==> out@[j] <= value,
            decreases out.len() - at,
        {
            at = at + 1;
        }
        let ghost before = out@;
        proof {
            assert forall|j: int| at <= j < before.len() implies value <= #[trigger] before[j] by {
                if j > at {
                    assert(leq()(before[at as int], before[j]));
                }
            }
        }
        out.insert(at, value);
        proof {
            let next = samples@.take(i + 1);
            assert(next =~= samples@.take(i as int).push(value));
            samples@.take(i as int).to_multiset_ensures();
            out@.to_multiset_ensures();
            assert(out@.remove(at as int) =~= before);
            assert(out@[at as int] == value);
            assert(out@.contains(value));
            assert(out@.to_multiset() =~= before.to_multiset().insert(value));
            assert forall|p: int, q: int| 0 <= p < q < out@.len() implies #[trigger] leq()(
                out@[p],
                out@[q],
            ) by {
                let bp = if p < at { p } else { p - 1 };
                let bq = if q < at { q } else { q - 1 };
                if p != at && q != at {
                    assert(leq()(before[bp], before[bq]));
                }
            }
        }
        i = i + 1;
    }
    proof {
        assert(samples@.take(i as int) =~= samples@);
        assert(total_ordering(leq()));
        samples@.lemma_sort_by_ensures(leq());
        vstd::seq_lib::lemma_sorted_unique(out@, samples@.sort_by(leq()), leq());
        assert(out@ =~= samples@.sort_by(leq()));
    }
    out
}

/// The median of measurements.
pub fn median(samples: &[u64]) -> (r: Option<u64>)
    ensures
        r == median_of(samples@),
{
    let s: Vec<u64> = sorted(samples);
    if s.len() == 0 {
        return None;
    }
    let mid: usize = s.len() / 2;
    if s.len() % 2 == 0 {
        Some(((s[mid - 1] as u128 + s[mid] as u128) / 2) as u64)
    } else {
        Some(s[mid])
    }
}

/// The first candidate of a measured pair of rounds: successive pairs start
/// half a turn apart.
pub open spec fn pair_start(len: int, round: int) -> int {
    ((round - 1) / 2 * ceil_div(len, 2)) % len
}

/// The candidate that a round takes at `offset`. The warmup round goes in
/// order; of each measured pair the first goes up from its start and the
/// second comes down to it.
pub open spec fn candidate_of(len: int, round: int, offset: int) -> int {
    if round == 0 {
        offset
    } else if round % 2 == 1 {
        (pair_start(len, round) + offset) % len
    } else {
        (pair_start(len, round) + len - 1 - offset) % len
    }
}

/// The candidate that a round takes at `offset`.
pub fn candidate_at(len: usize, round: u32, offset: usize) -> (r: usize)
    requires
        offset < len,
    ensures
        r == candidate_of(len as int, round as int, offset as int),
        r < len,
{
    if round == 0 {
        return offset;
    }
    let wide: u128 = len as u128;
    let pair: u128 = ((round - 1) / 2) as u128;
    let half: u128 = wide / 2 + wide % 2;
    proof {
        assert(half == ceil_div(len as int, 2));
        assert(pair * half <= 0x8000_0000 * 0x1_0000_0000_0000_0000) by (nonlinear_arith)
            requires
                0 <= pair <= 0x8000_0000,
                0 <= half <= 0x1_0000_0000_0000_0000,
        ;
        assert(pair * half >= 0) by (nonlinear_arith)
            requires
                pair >= 0,
                half >= 0,
        ;
    }
    let start: u128 = pair * half % wide;
    if round % 2 == 1 {
        ((start + offset as u128) % wide) as usize
    } else {
        ((start + wide - 1 - offset as u128) % wide) as usize
    }
}

/// A sum of two numbers below `len`, taken modulo `len`.
proof fn lemma_wrapped(len: int, a: int, b: int)
    requires
        0 <= a < len,
        0 <= b < len,
    ensures
        (a + b) % len == (if a + b < len { a + b } else { a + b - len }),
{
    if a + b < len {
        vstd::arithmetic::div_mod::lemma_small_mod((a + b) as nat, len as nat);
    } else {
        vstd::arithmetic::div_mod::lemma_fundamental_div_mod_converse(a + b, len, 1, a + b - len);
    }
}

/// Every round measures every candidate exactly once: different offsets give
/// different candidates of the list.
pub proof fn round_is_a_permutation(len: int, round: int, a: int, b: int)
    requires
        round >= 0,
        0 <= a < b < len,
    ensures
        0 <= candidate_of(len, round, a) < len,
        0 <= candidate_of(len, round, b) < len,
        candidate_of(len, round, a) != candidate_of(len, round, b),
{
    if round > 0 {
        let s = pair_start(len, round);
        vstd::arithmetic::div_mod::lemma_mod_bound((round - 1) / 2 * ceil_div(len, 2), len);
        lemma_wrapped(len, s, a);
        lemma_wrapped(len, s, b);
        lemma_wrapped(len, s, len - 1 - a);
        lemma_wrapped(len, s, len - 1 - b);
        assert(s + len - 1 - a == s + (len - 1 - a));
        assert(s + len - 1 - b == s + (len - 1 - b));
    }
}

/// Over a measured pair of rounds every candidate has the same sum of ranks,
/// so that a drifting clock favours none.
pub proof fn measured_pairs_are_balanced(len: int, pair: int, up: int, down: int)
    requires
        pair >= 0,
        0 <= up < len,
        0 <= down < len,
        candidate_of(len, 2 * pair + 1, up) == candidate_of(len, 2 * pair + 2, down),
    ensures
        up + down == len - 1,
{
    let r1 = 2 * pair + 1;
    let r2 = 2 * pair + 2;
    let s = pair_start(len, r1);
    assert((r1 - 1) / 2 == pair && (r2 - 1) / 2 == pair);
    assert(pair_start(len, r2) == s);
    vstd::arithmetic::div_mod::lemma_mod_bound(pair * ceil_div(len, 2), len);
    lemma_wrapped(len, s, up);
    lemma_wrapped(len, s, len - 1 - down);
    assert(s + len - 1 - down == s + (len - 1 - down));
}

/// Measured rounds: fewer for expensive shapes.
pub fn measured_rounds(total_flops: u64) -> (r: u32)
    ensures
        r == (if total_flops > 40_000_000_000 { 2u32 } else { 4 }),
{
    if total_flops > 40_000_000_000 {
        2
    } else {
        4
    }
}

/// The candidates that a shape is measured with among the first `upto`
/// slots: the tunable ones whose grid the device takes.
pub open spec fn fitting_slots(x: ExecutorView, dims: ResolvedMatmul, slots: Seq<usize>, upto: int) -> Seq<usize>
    decreases upto,
{
    if upto <= 0 {
        Seq::empty()
    } else {
        let front = fitting_slots(x, dims, slots, upto - 1);
        let slot = slots[upto - 1];
        if kernel_grid_fits(x.ctx, slot_kernel(slot), dims.batch, dims.m, dims.n) {
            front.push(slot)
        } else {
            front
        }
    }
}

/// The candidates that a shape is measured with.
pub open spec fn candidates_of(x: ExecutorView, dims: ResolvedMatmul) -> Seq<usize> {
    let slots = x.pipeline.tunable_slots(KERNEL_COUNT as int, dims.m, dims.n, dims.k, dims.b_f16);
    fitting_slots(x, dims, slots, slots.len() as int)
}

/// The dispatches of a measurement, in order: of each round, from the warmup
/// round on, every candidate.
pub open spec fn order_of(len: int, rounds: int) -> Seq<(u32, usize)> {
    Seq::new(
        ((rounds + 1) * len) as nat,
        |i: int| ((i / len) as u32, candidate_of(len, i / len, i % len) as usize),
    )
}

/// Whether `a` undercuts `b` by more than two percent.
pub open spec fn clearly_below(a: u64, b: u64) -> bool {
    a * 50 < b * 49
}

/// The first of the smallest medians among the first `upto` candidates.
pub open spec fn fastest(medians: Seq<Option<u64>>, upto: int) -> Option<int>
    decreases upto,
{
    if upto <= 0 {
        None
    } else {
        let best = fastest(medians, upto - 1);
        if medians[upto - 1] is Some && (best is None || medians[upto - 1]->0 < medians[best->0]->0) {
            Some(upto - 1)
        } else {
            best
        }
    }
}

/// Whether `i` is the first position at which a candidate stands.
pub open spec fn first_position(candidates: Seq<usize>, slot: usize, i: int) -> bool {
    &&& 0 <= i < candidates.len()
    &&& candidates[i] == slot
    &&& forall|j: int| 0 <= j < i ==> candidates[j] != slot
}

/// The time that was measured for a slot.
pub open spec fn time_of(candidates: Seq<usize>, medians: Seq<Option<u64>>, slot: usize) -> Option<u64> {
    if exists|i: int| first_position(candidates, slot, i) {
        medians[choose|i: int| first_position(candidates, slot, i)]
    } else {
        None
    }
}

/// The winner of a measurement: the fastest candidate, but the heuristic's
/// pick where that one does not clearly undercut it.
pub open spec fn winner_of(candidates: Seq<usize>, medians: Seq<Option<u64>>, heuristic: usize) -> Result<
    (usize, u64),
    ErrorView,
> {
    match fastest(medians, medians.len() as int) {
        None => Err(refused(Refusal::NoMeasurement)),
        Some(i) => {
            let ns = medians[i]->0;
            match time_of(candidates, medians, heuristic) {
                Some(prior) => if clearly_below(ns, prior) {
                    Ok((candidates[i], ns))
                } else {
                    Ok((heuristic, prior))
                },
                None => Ok((candidates[i], ns)),
            }
        },
    }
}

/// The tiles of a shape, of 128 by 128 elements each.
pub open spec fn tiles_of(dims: ResolvedMatmul) -> int {
    ceil_div(dims.m as int, 128) * ceil_div(dims.n as int, 128) * dims.batch
}

/// Whether two-stage split-K is probed for a shape: f32 weights, a deep K and
/// few tiles.
pub open spec fn probes_split(dims: ResolvedMatmul) -> bool {
    &&& !dims.b_f16
    &&& dims.k >= 1024
    &&& tiles_of(dims) <= 48
}

/// Whether the measurement of a shape that has candidates can be planned: the
/// heuristic picks a kernel that is there, and the tiles can be counted.
pub open spec fn tuning_ready(x: ExecutorView, dims: ResolvedMatmul) -> bool {
    candidates_of(x, dims).len() > 0 ==> {
        &&& x.pipeline.heuristic_ready(dims.batch, dims.m, dims.n, dims.k, dims.b_f16)
        &&& tiles_of(dims) <= u64::MAX
    }
}

/// The shape of an operand that a shape is measured on: one matrix, or a
/// batch of them.
pub open spec fn operand_shape(batch: u32, rows: u32, cols: u32) -> Seq<u32> {
    if batch == 1 {
        seq![rows, cols]
    } else {
        seq![batch, rows, cols]
    }
}

/// The shape of an operand that a shape is measured on.
pub fn tune_operand_shape(batch: u32, rows: u32, cols: u32) -> (r: Vec<u32>)
    ensures
        r@ == operand_shape(batch, rows, cols),
{
    if batch == 1 {
        vec![rows, cols]
    } else {
        vec![batch, rows, cols]
    }
}

/// The operands that a shape is measured on ask for a matmul of that shape,
/// wherever they can be resolved.
pub proof fn measured_operands_have_the_shape(batch: u32, m: u32, n: u32, k: u32)
    ensures
        resolve_raw(
            operand_shape(batch, m, k),
            operand_shape(batch, k, n),
            operand_shape(batch, m, n),
        ) matches Ok(dims) ==> dims.batch == batch && dims.m == m && dims.n == n && dims.k == k,
{
}

/// Whether a split count is probed: each split keeps enough K, and the route
/// would fit.
pub open spec fn probes_count(ctx: VulkanContext, dims: ResolvedMatmul, splits: u32) -> bool {
    &&& probes_split(dims)
    &&& dims.k / splits >= 128
    &&& auto_fits(
        ctx.max_groups_x,
        ctx.max_groups_y,
        ctx.max_groups_z,
        dims.batch,
        dims.m,
        dims.n,
        dims.k,
        splits,
    )
}

/// The split counts that may be probed, ascending.
pub open spec fn split_counts() -> Seq<u32> {
    seq![4, 8, 16, 32, 64]
}

/// Those of the first `upto` counts that are probed for a shape.
pub open spec fn probed_counts(ctx: VulkanContext, dims: ResolvedMatmul, upto: int) -> Seq<u32>
    decreases upto,
{
    if upto <= 0 {
        Seq::empty()
    } else if probes_count(ctx, dims, split_counts()[upto - 1]) {
        probed_counts(ctx, dims, upto - 1).push(split_counts()[upto - 1])
    } else {
        probed_counts(ctx, dims, upto - 1)
    }
}

fn fastest_of(medians: &[Option<u64>]) -> (r: Option<usize>)
    ensures
        r is Some <==> fastest(medians@, medians@.len() as int) is Some,
        r matches Some(i) ==> i < medians@.len() && fastest(medians@, medians@.len() as int) == Some(
            i as int,
        ) && medians@[i as int] is Some,
{
    let mut best: Option<usize> = None;
    let mut i: usize = 0;
    while i < medians.len()
        invariant
            i <= medians@.len(),
            best is Some <==> fastest(medians@, i as int) is Some,
            best matches Some(b) ==> b < i && fastest(medians@, i as int) == Some(b as int)
                && medians@[b as int] is Some,
        decreases medians.len() - i,
    {
        if let Some(ns) = medians[i] {
            let better: bool = match best {
                None => true,
                Some(b) => match medians[b] {
                    Some(least) => ns < least,
                    None => true,
                },
            };
            if better {
                best = Some(i);
            }
        }
        i = i + 1;
    }
    best
}

impl Executor {
    /// The candidates that a shape is measured with.
    pub fn tune_candidates(&self, dims: &ResolvedMatmul) -> (r: Result<Vec<usize>, Error>)
        ensures
            match r {
                Ok(slots) => slots@ == candidates_of(self@, *dims) && slots@.len() > 0,
                Err(e) => candidates_of(self@, *dims).len() == 0 && e@ == refused(
                    Refusal::NoTunableKernel,
                ),
            },
            r matches Ok(slots) ==> forall|i: int| 0 <= i < slots@.len() ==> #[trigger] slots@[i]
                < KERNEL_COUNT && self@.pipeline.present[slots@[i] as int],
    {
        let ctx: &VulkanContext = self.context();
        let slots: Vec<usize> = self.pipeline().tune_candidate_indices(
            dims.m,
            dims.n,
            dims.k,
            dims.b_f16,
        );
        let mut kept: Vec<usize> = Vec::new();
        let mut i: usize = 0;
        while i < slots.len()
            invariant
                i <= slots@.len(),
                *ctx == self@.ctx,
                forall|i: int| 0 <= i < slots@.len() ==> #[trigger] slots@[i] < KERNEL_COUNT
                    && self@.pipeline.present[slots@[i] as int],
                forall|i: int| 0 <= i < kept@.len() ==> #[trigger] kept@[i] < KERNEL_COUNT
                    && self@.pipeline.present[kept@[i] as int],
                kept@ == fitting_slots(self@, *dims, slots@, i as int),
            decreases slots.len() - i,
        {
            assert(slots@[i as int] < KERNEL_COUNT);
            let kernel: KernelSpec = self.pipeline().kernel_at(slots[i]);
            if div_ceil(dims.n, kernel.tile_n) <= ctx.max_groups_x && div_ceil(dims.m, kernel.tile_m)
                <= ctx.max_groups_y && dims.batch <= ctx.max_groups_z {
                kept.push(slots[i]);
            }
            i = i + 1;
        }
        if kept.len() == 0 {
            return Err(Error::new(Refusal::NoTunableKernel));
        }
        Ok(kept)
    }

    /// Whether a kernel may be forced: it binds no descriptors.
    pub fn check_forced(&self, slot: usize) -> (r: Result<(), Error>)
        requires
            slot < KERNEL_COUNT,
            self@.pipeline.present[slot as int],
        ensures
            outcome(r) == (if slot_kernel(slot).uses_descriptors {
                Err(refused_name(Refusal::ForcedDescriptors, slot_kernel(slot).name@))
            } else {
                Ok(())
            }),
    {
        let kernel: KernelSpec = self.pipeline().kernel_at(slot);
        if kernel.uses_descriptors {
            return Err(Error::with_name(Refusal::ForcedDescriptors, kernel.name));
        }
        Ok(())
    }

    /// Whether a shape can be measured: it needs it, and the device has
    /// timestamps.
    pub fn check_tune_shape(&self, key: TuneKey) -> (r: Result<bool, Error>)
        ensures
            outcome(r) == (if !(self@.pipeline.selection is Auto)
                || self@.pipeline.tuned.contains_key(key) {
                Ok(false)
            } else if !self@.ctx.timestamps_supported {
                Err(refused(Refusal::TuneNoTimestamps))
            } else {
                Ok(true)
            }),
    {
        if self.pipeline().is_tuned(key) {
            return Ok(false);
        }
        if !self.context().timestamps_supported {
            return Err(Error::new(Refusal::TuneNoTimestamps));
        }
        Ok(true)
    }

    /// The split counts that are probed for a shape, ascending.
    pub fn split_probes(&self, dims: &ResolvedMatmul) -> (r: Vec<u32>)
        requires
            tiles_of(*dims) <= u64::MAX,
        ensures
            r@ == probed_counts(self@.ctx, *dims, 5),
            forall|i: int| 0 <= i < r@.len() ==> 4 <= #[trigger] r@[i] <= 64,
    {
        let mut probes: Vec<u32> = Vec::new();
        let ctx: &VulkanContext = self.context();
        let rows: u64 = div_ceil(dims.m, 128) as u64;
        let cols: u64 = div_ceil(dims.n, 128) as u64;
        proof {
            lemma_mul_u32(rows as int, cols as int);
            reveal_with_fuel(probed_counts, 6);
        }
        let tiles: u64 = rows * cols * dims.batch as u64;
        if dims.b_f16 || dims.k < 1024 || tiles > 48 {
            return probes;
        }
        let counts: [u32; 5] = [4, 8, 16, 32, 64];
        assert(counts@ =~= split_counts());
        let max: [u32; 3] = [ctx.max_groups_x, ctx.max_groups_y, ctx.max_groups_z];
        let mut i: usize = 0;
        while i < 5
            invariant
                i <= 5,
                *ctx == self@.ctx,
                counts@ == split_counts(),
                probes_split(*dims),
                max@[0] == ctx.max_groups_x && max@[1] == ctx.max_groups_y && max@[2]
                    == ctx.max_groups_z,
                probes@ == probed_counts(self@.ctx, *dims, i as int),
                forall|j: int| 0 <= j < probes@.len() ==> 4 <= #[trigger] probes@[j] <= 64,
            decreases 5 - i,
        {
            let splits: u32 = counts[i];
            assert(4 <= split_counts()[i as int] <= 64);
            if dims.k / splits >= 128 && auto_route_fits(
                max,
                dims.batch,
                dims.m,
                dims.n,
                dims.k,
                splits,
            ) {
                probes.push(splits);
            }
            i = i + 1;
        }
        probes
    }
}

/// The dispatches of a measurement, in order: of each round, from the warmup
/// round on, every candidate. The timings of the warmup round do not count.
pub fn measurement_order(len: usize, rounds: u32) -> (r: Vec<(u32, usize)>)
    requires
        len > 0,
        rounds < u32::MAX,
    ensures
        r@ == order_of(len as int, rounds as int),
{
    let mut order: Vec<(u32, usize)> = Vec::new();
    let mut round: u32 = 0;
    while round <= rounds
        invariant
            len > 0,
            rounds < u32::MAX,
            round <= rounds + 1,
            order@.len() == round * len,
            forall|i: int| 0 <= i < order@.len() ==> #[trigger] order@[i] == (
                (i / len as int) as u32,
                candidate_of(len as int, i / len as int, i % len as int) as usize,
            ),
        decreases rounds + 1 - round,
    {
        let mut offset: usize = 0;
        while offset < len
            invariant
                len > 0,
                offset <= len,
                rounds < u32::MAX,
                round <= rounds,
                order@.len() == round * len + offset,
                forall|i: int| 0 <= i < order@.len() ==> #[trigger] order@[i] == (
                    (i / len as int) as u32,
                    candidate_of(len as int, i / len as int, i % len as int) as usize,
                ),
            decreases len - offset,
        {
            proof {
                let i = round * len + offset;
                vstd::arithmetic::div_mod::lemma_fundamental_div_mod_converse(
                    i,
                    len as int,
                    round as int,
                    offset as int,
                );
            }
            order.push((round, candidate_at(len, round, offset)));
            offset = offset + 1;
        }
        proof {
            assert((round + 1) * len == round * len + len) by (nonlinear_arith);
        }
        round = round + 1;
    }
    assert(order@ =~= order_of(len as int, rounds as int));
    order
}

/// The kernel that warms up the clocks before anything is timed: the
/// heuristic's pick where it is a candidate, else the first candidate.
pub fn warmup_candidate(candidates: &[usize], heuristic: usize) -> (r: usize)
    requires
        candidates@.len() > 0,
    ensures
        r == (if candidates@.contains(heuristic) {
            heuristic
        } else {
            candidates@[0]
        }),
        candidates@.contains(r),
{
    let mut i: usize = 0;
    while i < candidates.len()
        invariant
            i <= candidates@.len(),
            forall|j: int| 0 <= j < i ==> candidates@[j] != heuristic,
        decreases candidates.len() - i,
    {
        if candidates[i] == heuristic {
            assert(candidates@.contains(candidates@[i as int]));
            return heuristic;
        }
        i = i + 1;
    }
    assert(candidates@.contains(candidates@[0]));
    candidates[0]
}

/// The split executions of a measurement, in order: of each probed count,
/// every round from the warmup round on.
pub open spec fn probe_order_of(len: int, rounds: int) -> Seq<(u32, usize)> {
    Seq::new(
        (len * (rounds + 1)) as nat,
        |i: int| ((i % (rounds + 1)) as u32, (i / (rounds + 1)) as usize),
    )
}

/// The split executions of a measurement, in order.
pub fn probe_order(len: usize, rounds: u32) -> (r: Vec<(u32, usize)>)
    requires
        rounds < u32::MAX,
    ensures
        r@ == probe_order_of(len as int, rounds as int),
{
    let mut order: Vec<(u32, usize)> = Vec::new();
    let mut probe: usize = 0;
    assert(0 * (rounds + 1) == 0);
    while probe < len
        invariant
            rounds < u32::MAX,
            probe <= len,
            order@.len() == probe * (rounds + 1),
            forall|i: int| 0 <= i < order@.len() ==> #[trigger] order@[i] == (
                (i % (rounds + 1)) as u32,
                (i / (rounds + 1)) as usize,
            ),
        decreases len - probe,
    {
        let mut round: u32 = 0;
        while round <= rounds
            invariant
                rounds < u32::MAX,
                probe < len,
                round <= rounds + 1,
                order@.len() == probe * (rounds + 1) + round,
                forall|i: int| 0 <= i < order@.len() ==> #[trigger] order@[i] == (
                    (i % (rounds + 1)) as u32,
                    (i / (rounds + 1)) as usize,
                ),
            decreases rounds + 1 - round,
        {
            proof {
                vstd::arithmetic::div_mod::lemma_fundamental_div_mod_converse(
                    probe * (rounds + 1) + round,
                    rounds + 1,
                    probe as int,
                    round as int,
                );
            }
            order.push((round, probe));
            round = round + 1;
        }
        proof {
            assert((probe + 1) * (rounds + 1) == probe * (rounds + 1) + (rounds + 1))
                by (nonlinear_arith);
        }
        probe = probe + 1;
    }
    assert(order@ =~= probe_order_of(len as int, rounds as int));
    order
}

/// The times of one candidate among the first `upto` dispatches. Those of the
/// warmup round do not count, and a dispatch may have none.
pub open spec fn samples_of(order: Seq<(u32, usize)>, times: Seq<Option<u64>>, candidate: int, upto: int) -> Seq<
    u64,
>
    decreases upto,
{
    if upto <= 0 {
        Seq::empty()
    } else {
        let front = samples_of(order, times, candidate, upto - 1);
        let (round, at) = order[upto - 1];
        if at == candidate && round > 0 && times[upto - 1] is Some {
            front.push(times[upto - 1]->0)
        } else {
            front
        }
    }
}

/// The times of each of `len` candidates, out of those of the dispatches of a
/// measurement.
pub fn collect_samples(len: usize, order: &[(u32, usize)], times: &[Option<u64>]) -> (r: Vec<Vec<u64>>)
    requires
        times@.len() == order@.len(),
    ensures
        r@.len() == len,
        forall|c: int| 0 <= c < len ==> (#[trigger] r@[c])@ == samples_of(
            order@,
            times@,
            c,
            order@.len() as int,
        ),
{
    let mut samples: Vec<Vec<u64>> = Vec::new();
    let mut c: usize = 0;
    while c < len
        invariant
            c <= len,
            times@.len() == order@.len(),
            samples@.len() == c,
            forall|d: int| 0 <= d < c ==> (#[trigger] samples@[d])@ == samples_of(
                order@,
                times@,
                d,
                order@.len() as int,
            ),
        decreases len - c,
    {
        let mut own: Vec<u64> = Vec::new();
        let mut i: usize = 0;
        while i < order.len()
            invariant
                i <= order@.len(),
                times@.len() == order@.len(),
                own@ == samples_of(order@, times@, c as int, i as int),
            decreases order.len() - i,
        {
            let (round, at): (u32, usize) = order[i];
            if at == c && round > 0 {
                if let Some(ns) = times[i] {
                    own.push(ns);
                }
            }
            i = i + 1;
        }
        samples.push(own);
        c = c + 1;
    }
    samples
}

fn medians_of(samples: &[Vec<u64>]) -> (r: Vec<Option<u64>>)
    ensures
        r@ == all_medians(samples@),
{
    let mut medians: Vec<Option<u64>> = Vec::new();
    let mut i: usize = 0;
    while i < samples.len()
        invariant
            i <= samples@.len(),
            medians@ =~= all_medians(samples@).take(i as int),
        decreases samples.len() - i,
    {
        medians.push(median(&samples[i]));
        i = i + 1;
    }
    assert(medians@ =~= all_medians(samples@));
    medians
}

/// The median of each candidate's measurements.
pub open spec fn all_medians(samples: Seq<Vec<u64>>) -> Seq<Option<u64>> {
    Seq::new(samples.len(), |i: int| median_of(samples[i]@))
}

/// The winner of a measurement and its time.
pub fn pick_winner(candidates: &[usize], samples: &[Vec<u64>], heuristic: usize) -> (r: Result<
    (usize, u64),
    Error,
>)
    requires
        candidates@.len() == samples@.len(),
    ensures
        outcome(r) == winner_of(candidates@, all_medians(samples@), heuristic),
        r matches Ok((slot, _)) ==> candidates@.contains(slot),
{
    let medians: Vec<Option<u64>> = medians_of(samples);
    let best: usize = match fastest_of(&medians) {
        Some(i) => i,
        None => return Err(Error::new(Refusal::NoMeasurement)),
    };
    let ns: u64 = match medians[best] {
        Some(ns) => ns,
        None => 0,
    };
    assert(candidates@.contains(candidates@[best as int]));
    let mut i: usize = 0;
    while i < candidates.len()
        invariant
            i <= candidates@.len(),
            best < candidates@.len(),
            candidates@.len() == samples@.len(),
            medians@ == all_medians(samples@),
            fastest(medians@, medians@.len() as int) == Some(best as int),
            medians@[best as int] == Some(ns),
            candidates@.contains(candidates@[best as int]),
            forall|j: int| 0 <= j < i ==> candidates@[j] != heuristic,
        decreases candidates.len() - i,
    {
        if candidates[i] == heuristic {
            proof {
                assert(first_position(candidates@, heuristic, i as int));
                let c = choose|c: int| first_position(candidates@, heuristic, c);
                assert(c == i);
                assert(candidates@.contains(heuristic));
            }
            return match medians[i] {
                Some(prior) => if (ns as u128) * 50 < (prior as u128) * 49 {
                    Ok((candidates[best], ns))
                } else {
                    Ok((heuristic, prior))
                },
                None => Ok((candidates[best], ns)),
            };
        }
        i = i + 1;
    }
    Ok((candidates[best], ns))
}

/// The split count that beats the data-parallel winner, if one does: the
/// fastest of those probed, where it clearly undercuts it.
pub fn pick_split(counts: &[u32], samples: &[Vec<u64>], dp_best_ns: u64) -> (r: Option<(u32, u64)>)
    requires
        counts@.len() == samples@.len(),
    ensures
        ({
            let medians = all_medians(samples@);
            r == (match fastest(medians, medians.len() as int) {
                Some(i) => if clearly_below(medians[i]->0, dp_best_ns) {
                    Some((counts@[i], medians[i]->0))
                } else {
                    None
                },
                None => None,
            })
        }),
{
    let medians: Vec<Option<u64>> = medians_of(samples);
    match fastest_of(&medians) {
        None => None,
        Some(i) => match medians[i] {
            Some(ns) => if (ns as u128) * 50 < (dp_best_ns as u128) * 49 {
                Some((counts[i], ns))
            } else {
                None
            },
            None => None,
        },
    }
}

/// The winner that is recorded for a shape.
pub fn tuned_entry(dims: &ResolvedMatmul, winner: usize, split: Option<(u32, u64)>) -> (r: (
    TuneKey,
    TuneEntry,
))
    requires
        winner < KERNEL_COUNT,
    ensures
        r.0 == (TuneKey {
            batch: dims.batch,
            m: dims.m,
            n: dims.n,
            k: dims.k,
            b_f16: dims.b_f16,
        }),
        r.1 == (TuneEntry {
            kernel: winner,
            splitk2_splits: match split {
                Some((s, _)) => Some(s),
                None => None,
            },
        }),
        r.1.valid(),
        (split matches Some((s, _)) ==> 2 <= s <= 0xFFFF) ==> r.1.usable(),
{
    (
        TuneKey { batch: dims.batch, m: dims.m, n: dims.n, k: dims.k, b_f16: dims.b_f16 },
        TuneEntry {
            kernel: winner,
            splitk2_splits: match split {
                Some((s, _)) => Some(s),
                None => None,
            },
        },
    )
}

/// What is run to measure a shape. Everything is fixed before the first time
/// comes in.
pub struct TunePlan {
    /// The slots that are measured.
    pub candidates: Vec<usize>,
    /// The slot that the shape heuristic picks.
    pub heuristic: usize,
    /// Runs once before everything else.
    pub warmup: usize,
    /// Round and candidate of each dispatch.
    pub order: Vec<(u32, usize)>,
    /// The split counts that are probed behind the candidates.
    pub probes: Vec<u32>,
    /// Round and probe of each split execution.
    pub probe_order: Vec<(u32, usize)>,
}

impl TunePlan {
    /// Slots of the registry, and usable split counts.
    pub open spec fn valid(&self) -> bool {
        &&& forall|i: int| 0 <= i < self.candidates@.len() ==> #[trigger] self.candidates@[i]
            < KERNEL_COUNT
        &&& forall|i: int| 0 <= i < self.probes@.len() ==> 2 <= #[trigger] self.probes@[i] <= 0xFFFF
    }
}

/// The median of each candidate, out of the times of the dispatches.
pub open spec fn measured_medians(len: int, order: Seq<(u32, usize)>, times: Seq<Option<u64>>) -> Seq<
    Option<u64>,
> {
    Seq::new(len as nat, |c: int| median_of(samples_of(order, times, c, order.len() as int)))
}

/// The split count that beats the data-parallel winner, if one does.
pub open spec fn split_of(counts: Seq<u32>, medians: Seq<Option<u64>>, dp_best_ns: u64) -> Option<u32> {
    match fastest(medians, medians.len() as int) {
        Some(i) => if clearly_below(medians[i]->0, dp_best_ns) {
            Some(counts[i])
        } else {
            None
        },
        None => None,
    }
}

/// The winner that a measurement ends in.
pub open spec fn measured_entry(
    plan: TunePlan,
    times: Seq<Option<u64>>,
    split_times: Seq<Option<u64>>,
) -> Result<TuneEntry, ErrorView> {
    let medians = measured_medians(plan.candidates@.len() as int, plan.order@, times);
    let split_medians = measured_medians(
        plan.probes@.len() as int,
        plan.probe_order@,
        split_times,
    );
    match winner_of(plan.candidates@, medians, plan.heuristic) {
        Err(e) => Err(e),
        Ok((slot, ns)) => Ok(
            TuneEntry { kernel: slot, splitk2_splits: split_of(plan.probes@, split_medians, ns) },
        ),
    }
}

impl Executor {
    /// Decides [`tuning_ready`].
    pub fn check_tuning_ready(&self, dims: &ResolvedMatmul) -> (r: bool)
        ensures
            r == tuning_ready(self@, *dims),
    {
        if self.tune_candidates(dims).is_err() {
            return true;
        }
        let rows: u32 = div_ceil(dims.m, 128);
        let cols: u32 = div_ceil(dims.n, 128);
        proof {
            lemma_mul_u32(rows as int, cols as int);
        }
        let plane: u64 = rows as u64 * cols as u64;
        self.pipeline().heuristic_ready(dims.batch, dims.m, dims.n, dims.k, dims.b_f16)
            && plane.checked_mul(dims.batch as u64).is_some()
    }

    /// Plans the measurement of a shape: one warmup, every candidate in every
    /// round, then every split probe in every round.
    pub fn plan_tuning(&self, dims: &ResolvedMatmul) -> (r: Result<TunePlan, Error>)
        requires
            tuning_ready(self@, *dims),
        ensures
            match r {
                Err(e) => candidates_of(self@, *dims).len() == 0 && e@ == refused(
                    Refusal::NoTunableKernel,
                ),
                Ok(plan) => {
                    let rounds = if dims.total_flops > 40_000_000_000 { 2int } else { 4 };
                    let slots = candidates_of(self@, *dims);
                    &&& slots.len() > 0
                    &&& plan.candidates@ == slots
                    &&& Some(plan.heuristic) == self@.pipeline.heuristic_slot(
                        dims.batch,
                        dims.m,
                        dims.n,
                        dims.k,
                        dims.b_f16,
                    )
                    &&& plan.warmup == (if slots.contains(plan.heuristic) {
                        plan.heuristic
                    } else {
                        slots[0]
                    })
                    &&& plan.order@ == order_of(slots.len() as int, rounds)
                    &&& plan.probes@ == probed_counts(self@.ctx, *dims, 5)
                    &&& plan.probe_order@ == probe_order_of(plan.probes@.len() as int, rounds)
                    &&& plan.valid()
                    &&& forall|i: int|
                        0 <= i < slots.len() ==> self@.pipeline.present[#[trigger] slots[i] as int]
                },
            },
    {
        let candidates: Vec<usize> = match self.tune_candidates(dims) {
            Ok(candidates) => candidates,
            Err(e) => return Err(e),
        };
        let heuristic: usize = self.pipeline().heuristic_kernel_index(
            dims.batch,
            dims.m,
            dims.n,
            dims.k,
            dims.b_f16,
        );
        let rounds: u32 = measured_rounds(dims.total_flops);
        let warmup: usize = warmup_candidate(&candidates, heuristic);
        let order: Vec<(u32, usize)> = measurement_order(candidates.len(), rounds);
        let probes: Vec<u32> = self.split_probes(dims);
        let probe_order: Vec<(u32, usize)> = probe_order(probes.len(), rounds);
        Ok(TunePlan { candidates, heuristic, warmup, order, probes, probe_order })
    }
}

impl TunePlan {
    /// The winner of a measurement, out of the times of its dispatches and of
    /// its split executions; a time is missing where the device gave none.
    pub fn conclude(&self, dims: &ResolvedMatmul, times: &[Option<u64>], split_times: &[Option<u64>]) -> (r:
        Result<(TuneKey, TuneEntry), Error>)
        requires
            self.valid(),
            times@.len() == self.order@.len(),
            split_times@.len() == self.probe_order@.len(),
        ensures
            match measured_entry(*self, times@, split_times@) {
                Err(e) => r is Err && r->Err_0@ == e,
                Ok(entry) => {
                    &&& r is Ok
                    &&& (r->Ok_0).1 == entry
                    &&& (r->Ok_0).0 == (TuneKey {
                        batch: dims.batch,
                        m: dims.m,
                        n: dims.n,
                        k: dims.k,
                        b_f16: dims.b_f16,
                    })
                    &&& entry.valid()
                    &&& entry.usable()
                    &&& self.candidates@.contains(entry.kernel)
                },
            },
    {
        let samples: Vec<Vec<u64>> = collect_samples(self.candidates.len(), &self.order, times);
        let split_samples: Vec<Vec<u64>> = collect_samples(
            self.probes.len(),
            &self.probe_order,
            split_times,
        );
        proof {
            assert(all_medians(samples@) =~= measured_medians(
                self.candidates@.len() as int,
                self.order@,
                times@,
            ));
            assert(all_medians(split_samples@) =~= measured_medians(
                self.probes@.len() as int,
                self.probe_order@,
                split_times@,
            ));
        }
        let (winner, ns): (usize, u64) = match pick_winner(
            &self.candidates,
            &samples,
            self.heuristic,
        ) {
            Ok(best) => best,
            Err(e) => return Err(e),
        };
        let split: Option<(u32, u64)> = pick_split(&self.probes, &split_samples, ns);
        proof {
            let medians = all_medians(split_samples@);
            fastest_is_a_minimum(medians, medians.len() as int);
            let at = choose|i: int| 0 <= i < self.candidates@.len() && self.candidates@[i] == winner;
            assert(self.candidates@[at] == winner);
        }
        Ok(tuned_entry(dims, winner, split))
    }
}

/// The fastest candidate was measured, and none was measured below it.
pub proof fn fastest_is_a_minimum(medians: Seq<Option<u64>>, upto: int)
    requires
        0 <= upto <= medians.len(),
    ensures
        fastest(medians, upto) is None <==> forall|i: int| 0 <= i < upto ==> medians[i] is None,
        fastest(medians, upto) matches Some(b) ==> {
            &&& 0 <= b < upto
            &&& medians[b] is Some
            &&& forall|i: int| 0 <= i < upto && medians[i] is Some ==> medians[b]->0 <= medians[i]->0
            &&& forall|i: int| 0 <= i < b && medians[i] is Some ==> medians[b]->0 < medians[i]->0
        },
    decreases upto,
{
    if upto > 0 {
        fastest_is_a_minimum(medians, upto - 1);
    }
}

/// A candidate that is never timed has no samples, and so no median.
pub proof fn untimed_candidates_have_no_median(
    order: Seq<(u32, usize)>,
    times: Seq<Option<u64>>,
    candidate: int,
    upto: int,
)
    requires
        upto <= order.len(),
        times.len() == order.len(),
        forall|i: int| 0 <= i < upto && (#[trigger] order[i]).1 == candidate && order[i].0 > 0
            ==> times[i] is None,
    ensures
        samples_of(order, times, candidate, upto) =~= Seq::<u64>::empty(),
        median_of(samples_of(order, times, candidate, upto)) is None,
    decreases upto,
{
    if upto > 0 {
        untimed_candidates_have_no_median(order, times, candidate, upto - 1);
    }
    let s = samples_of(order, times, candidate, upto);
    assert(s =~= Seq::<u64>::empty());
    assert(total_ordering(leq()));
    s.lemma_sort_by_ensures(leq());
    s.to_multiset_ensures();
    s.sort_by(leq()).to_multiset_ensures();
}

/// A challenger replaces the heuristic's pick only where it was measured
/// more than two percent below it.
pub proof fn winner_clears_the_margin(candidates: Seq<usize>, medians: Seq<Option<u64>>, heuristic: usize)
    requires
        candidates.len() == medians.len(),
        winner_of(candidates, medians, heuristic) is Ok,
        (winner_of(candidates, medians, heuristic)->Ok_0).0 != heuristic,
        time_of(candidates, medians, heuristic) is Some,
    ensures
        clearly_below(
            (winner_of(candidates, medians, heuristic)->Ok_0).1,
            time_of(candidates, medians, heuristic)->0,
        ),
{
}

} // verus!
