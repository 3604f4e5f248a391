//! Where a barrier is owed between dispatches.
//!
//! A single global barrier flushes all earlier writes, so only what was
//! recorded since the last one has to be remembered.

use crate::matmul::api::MatmulOp;
use crate::tensor::Tensor;
use vstd::prelude::*;

verus! {

/// The buffers that a dispatch touches.
pub struct AccessView {
    pub reads: Seq<u64>,
    pub writes: Seq<u64>,
    /// The dispatch has a full barrier of its own between its reads and its
    /// writes: whatever came before is flushed by it.
    pub flushes: bool,
}

/// The buffers that a dispatch touches.
pub struct Access {
    reads: Vec<u64>,
    writes: Vec<u64>,
    flushes: bool,
}

impl View for Access {
    type V = AccessView;

    closed spec fn view(&self) -> AccessView {
        AccessView { reads: self.reads@, writes: self.writes@, flushes: self.flushes }
    }
}

/// Nothing is touched.
pub open spec fn no_access() -> AccessView {
    AccessView { reads: Seq::empty(), writes: Seq::empty(), flushes: false }
}

impl AccessView {
    /// One more buffer is read.
    pub open spec fn and_reads(self, buffer: u64) -> AccessView {
        AccessView { reads: self.reads.push(buffer), ..self }
    }

    /// One more buffer is written.
    pub open spec fn and_writes(self, buffer: u64) -> AccessView {
        AccessView { writes: self.writes.push(buffer), ..self }
    }

    /// Whether this dispatch has to wait for work that touches `pending`: it
    /// reads or writes what that writes, or writes what that reads. The
    /// writes of a dispatch that flushes wait by themselves.
    pub open spec fn conflicts(self, pending: AccessView) -> bool {
        ||| exists|b: u64| #[trigger] self.reads.contains(b) && pending.writes.contains(b)
        ||| !self.flushes && exists|b: u64| #[trigger]
            self.writes.contains(b) && pending.writes.contains(b)
        ||| !self.flushes && exists|b: u64| #[trigger]
            self.writes.contains(b) && pending.reads.contains(b)
    }

    /// What is pending once this dispatch is recorded behind `pending`.
    pub open spec fn recorded_behind(self, pending: AccessView) -> AccessView {
        if self.flushes || self.conflicts(pending) {
            AccessView { reads: self.reads, writes: self.writes, flushes: false }
        } else {
            AccessView {
                reads: pending.reads + self.reads,
                writes: pending.writes + self.writes,
                flushes: false,
            }
        }
    }
}

fn holds(items: &[u64], buffer: u64) -> (r: bool)
    ensures
        r == items@.contains(buffer),
{
    let mut i: usize = 0;
    while i < items.len()
        invariant
            i <= items@.len(),
            forall|j: int| 0 <= j < i ==> items@[j] != buffer,
        decreases items.len() - i,
    {
        if items[i] == buffer {
            return true;
        }
        i = i + 1;
    }
    false
}

fn meet(a: &[u64], b: &[u64]) -> (r: bool)
    ensures
        r == (exists|x: u64| #[trigger] a@.contains(x) && b@.contains(x)),
{
    let mut i: usize = 0;
    while i < a.len()
        invariant
            i <= a@.len(),
            forall|j: int| 0 <= j < i ==> !b@.contains(#[trigger] a@[j]),
        decreases a.len() - i,
    {
        if holds(b, a[i]) {
            assert(a@.contains(a@[i as int]));
            return true;
        }
        i = i + 1;
    }
    false
}

fn append(to: &mut Vec<u64>, from: &[u64])
    ensures
        final(to)@ == old(to)@ + from@,
{
    let mut i: usize = 0;
    while i < from.len()
        invariant
            i <= from@.len(),
            to@ =~= old(to)@ + from@.take(i as int),
        decreases from.len() - i,
    {
        to.push(from[i]);
        i = i + 1;
    }
}

impl Access {
    /// Nothing is touched.
    pub fn new() -> (r: Self)
        ensures
            r@ == no_access(),
    {
        let r = Access { reads: Vec::new(), writes: Vec::new(), flushes: false };
        assert(r.reads@ =~= Seq::empty() && r.writes@ =~= Seq::empty());
        r
    }

    /// A tensor is read.
    pub fn read(self, tensor: &Tensor) -> (r: Self)
        ensures
            r@ == self@.and_reads(tensor@.buffer.handle),
    {
        self.read_raw(tensor.raw_buffer())
    }

    /// A tensor is written.
    pub fn write(self, tensor: &Tensor) -> (r: Self)
        ensures
            r@ == self@.and_writes(tensor@.buffer.handle),
    {
        self.write_raw(tensor.raw_buffer())
    }

    /// A buffer is read.
    pub fn read_raw(self, buffer: u64) -> (r: Self)
        ensures
            r@ == self@.and_reads(buffer),
    {
        let Access { mut reads, writes, flushes } = self;
        reads.push(buffer);
        Access { reads, writes, flushes }
    }

    /// A buffer is written.
    pub fn write_raw(self, buffer: u64) -> (r: Self)
        ensures
            r@ == self@.and_writes(buffer),
    {
        let Access { reads, mut writes, flushes } = self;
        writes.push(buffer);
        Access { reads, writes, flushes }
    }

    /// The dispatch has a full barrier of its own.
    pub fn flushing(self) -> (r: Self)
        ensures
            r@ == (AccessView { flushes: true, ..self@ }),
    {
        Access { reads: self.reads, writes: self.writes, flushes: true }
    }

    /// Whether a dispatch has to wait for pending work.
    pub fn hazard_with(&self, pending: &Access) -> (r: bool)
        ensures
            r == self@.conflicts(pending@),
    {
        let reads_written: bool = meet(self.reads.as_slice(), pending.writes.as_slice());
        let writes_written: bool = meet(self.writes.as_slice(), pending.writes.as_slice());
        let writes_read: bool = meet(self.writes.as_slice(), pending.reads.as_slice());
        proof {
            let now = self@;
            let then = pending@;
            assert(now.reads == self.reads@ && now.writes == self.writes@);
            assert(then.reads == pending.reads@ && then.writes == pending.writes@);
            assert(reads_written == (exists|b: u64| #[trigger] now.reads.contains(b)
                && then.writes.contains(b)));
            assert(writes_written == (exists|b: u64| #[trigger] now.writes.contains(b)
                && then.writes.contains(b)));
            assert(writes_read == (exists|b: u64| #[trigger] now.writes.contains(b)
                && then.reads.contains(b)));
        }
        reads_written || (!self.flushes && (writes_written || writes_read))
    }
}

/// What a matmul touches. A scatter store redirects the output into its
/// destination, and C is then not touched.
pub open spec fn op_access(op: MatmulOp) -> AccessView {
    let out = match op.store.dst_of() {
        Some(dst) => dst@.buffer.handle,
        None => op.call.c@.buffer.handle,
    };
    let operands = no_access().and_reads(op.call.a@.buffer.handle).and_reads(
        op.call.b@.buffer.handle,
    ).and_writes(out);
    let tabled = match op.store.table_of() {
        Some(table) => operands.and_reads(table@.buffer.handle),
        None => operands,
    };
    let accumulated = if op.call.accumulate {
        tabled.and_reads(op.call.c@.buffer.handle)
    } else {
        tabled
    };
    let biased = match op.epilogue.bias {
        Some(bias) => accumulated.and_reads(bias@.buffer.handle),
        None => accumulated,
    };
    let combined = match op.epilogue.d_of() {
        Some(d) => biased.and_reads(d@.buffer.handle),
        None => biased,
    };
    match op.normed_a {
        Some((weight, _)) => combined.and_reads(weight@.buffer.handle),
        None => combined,
    }
}

/// What a matmul touches.
pub fn access_of(op: &MatmulOp<'_>) -> (r: Access)
    ensures
        r@ == op_access(*op),
{
    let mut access: Access = Access::new().read(op.call.a).read(op.call.b);
    access =
    match op.store.dst() {
        Some(dst) => access.write(dst),
        None => access.write(op.call.c),
    };
    if let Some(table) = op.store.table() {
        access = access.read(table);
    }
    if op.call.accumulate {
        access = access.read(op.call.c);
    }
    if let Some(bias) = op.epilogue.bias {
        access = access.read(bias);
    }
    if let Some(d) = op.epilogue.d_tensor() {
        access = access.read(d);
    }
    if let Some((weight, _)) = op.normed_a {
        access = access.read(weight);
    }
    access
}

/// What was recorded since the last barrier, after a list of dispatches.
pub open spec fn pending_after(accesses: Seq<AccessView>) -> AccessView
    decreases accesses.len(),
{
    if accesses.len() == 0 {
        no_access()
    } else {
        accesses.last().recorded_behind(pending_after(accesses.drop_last()))
    }
}

/// Whether a barrier precedes dispatch `i`.
pub open spec fn barrier_at(accesses: Seq<AccessView>, i: int) -> bool {
    accesses[i].conflicts(pending_after(accesses.take(i)))
}

/// Whether everything before dispatch `p` is flushed once `p` is done with
/// its reads: a barrier precedes it, or it holds one.
pub open spec fn separates(accesses: Seq<AccessView>, p: int) -> bool {
    barrier_at(accesses, p) || accesses[p].flushes
}

/// Nothing strictly between two dispatches separates them.
pub open spec fn unseparated(accesses: Seq<AccessView>, i: int, j: int) -> bool {
    forall|p: int| i < p < j ==> !#[trigger] separates(accesses, p)
}

/// How many of the first `upto` dispatches a barrier precedes.
pub open spec fn barrier_count(accesses: Seq<AccessView>, upto: int) -> nat
    decreases upto,
{
    if upto <= 0 {
        0
    } else {
        barrier_count(accesses, upto - 1) + (if barrier_at(accesses, upto - 1) { 1nat } else { 0 })
    }
}

/// Walks a list of dispatches and says where a barrier is owed. Recording
/// and counting share it, so that they cannot disagree.
pub struct HazardCursor {
    pending: Access,
}

impl View for HazardCursor {
    type V = AccessView;

    closed spec fn view(&self) -> AccessView {
        self.pending@
    }
}

impl HazardCursor {
    /// Nothing has been recorded.
    pub fn new() -> (r: Self)
        ensures
            r@ == no_access(),
    {
        HazardCursor { pending: Access::new() }
    }

    /// Whether a barrier has to precede a dispatch; the dispatch then counts
    /// as recorded.
    pub fn barrier_before(&mut self, access: &Access) -> (r: bool)
        ensures
            r == access@.conflicts(old(self)@),
            final(self)@ == access@.recorded_behind(old(self)@),
    {
        let needed: bool = access.hazard_with(&self.pending);
        if needed || access.flushes {
            self.pending = Access::new();
        }
        self.pending.flushes = false;
        append(&mut self.pending.reads, &access.reads);
        append(&mut self.pending.writes, &access.writes);
        assert(self@.reads =~= access@.recorded_behind(old(self)@).reads);
        assert(self@.writes =~= access@.recorded_behind(old(self)@).writes);
        needed
    }
}

/// What a dispatch touched stays pending until a barrier.
proof fn lemma_pending_until_barrier(accesses: Seq<AccessView>, i: int, j: int)
    requires
        0 <= i < j <= accesses.len(),
        unseparated(accesses, i, j),
    ensures
        forall|b: u64| #[trigger]
            accesses[i].reads.contains(b) ==> pending_after(accesses.take(j)).reads.contains(b),
        forall|b: u64| #[trigger]
            accesses[i].writes.contains(b) ==> pending_after(accesses.take(j)).writes.contains(b),
    decreases j - i,
{
    let now = accesses.take(j);
    let before = pending_after(now.drop_last());
    let last = accesses[j - 1];
    assert(now.drop_last() =~= accesses.take(j - 1));
    assert(now.last() == last);
    if i == j - 1 {
        assert forall|b: u64| #[trigger] accesses[i].reads.contains(b) implies pending_after(
            now,
        ).reads.contains(b) by {
            lemma_concat_contains(before.reads, last.reads, b);
        }
        assert forall|b: u64| #[trigger] accesses[i].writes.contains(b) implies pending_after(
            now,
        ).writes.contains(b) by {
            lemma_concat_contains(before.writes, last.writes, b);
        }
    } else {
        assert(unseparated(accesses, i, j - 1));
        lemma_pending_until_barrier(accesses, i, j - 1);
        assert(!separates(accesses, j - 1));
        assert forall|b: u64| #[trigger] accesses[i].reads.contains(b) implies pending_after(
            now,
        ).reads.contains(b) by {
            lemma_concat_contains(before.reads, last.reads, b);
        }
        assert forall|b: u64| #[trigger] accesses[i].writes.contains(b) implies pending_after(
            now,
        ).writes.contains(b) by {
            lemma_concat_contains(before.writes, last.writes, b);
        }
    }
}

proof fn lemma_concat_contains(a: Seq<u64>, b: Seq<u64>, x: u64)
    ensures
        (a + b).contains(x) <==> a.contains(x) || b.contains(x),
{
    let s = a + b;
    if a.contains(x) {
        let i = choose|i: int| 0 <= i < a.len() && a[i] == x;
        assert(s[i] == x);
    }
    if b.contains(x) {
        let i = choose|i: int| 0 <= i < b.len() && b[i] == x;
        assert(s[a.len() + i] == x);
    }
    if s.contains(x) {
        let i = choose|i: int| 0 <= i < s.len() && s[i] == x;
        if i < a.len() {
            assert(a[i] == x);
        } else {
            assert(b[i - a.len()] == x);
        }
    }
}

/// No dispatch overlaps an earlier one that it depends on: between two that
/// conflict stands a barrier, directly or inside a dispatch that flushes.
pub proof fn conflicting_dispatches_are_separated(accesses: Seq<AccessView>, i: int, j: int)
    requires
        0 <= i < j < accesses.len(),
        accesses[j].conflicts(accesses[i]),
    ensures
        barrier_at(accesses, j) || exists|p: int| i < p < j && #[trigger] separates(accesses, p),
{
    if unseparated(accesses, i, j) {
        lemma_pending_until_barrier(accesses, i, j);
        let pending = pending_after(accesses.take(j));
        let a = accesses[j];
        if exists|b: u64| #[trigger] a.reads.contains(b) && accesses[i].writes.contains(b) {
            let b = choose|b: u64| #[trigger] a.reads.contains(b) && accesses[i].writes.contains(b);
            assert(pending.writes.contains(b));
        } else if exists|b: u64| #[trigger] a.writes.contains(b) && accesses[i].writes.contains(b) {
            let b = choose|b: u64| #[trigger] a.writes.contains(b) && accesses[i].writes.contains(b);
            assert(pending.writes.contains(b));
        } else {
            let b = choose|b: u64| #[trigger] a.writes.contains(b) && accesses[i].reads.contains(b);
            assert(pending.reads.contains(b));
        }
        assert(barrier_at(accesses, j));
    }
}

/// Where something pending was touched.
proof fn lemma_pending_comes_from(accesses: Seq<AccessView>, j: int, b: u64, written: bool)
    requires
        0 <= j <= accesses.len(),
        written ==> pending_after(accesses.take(j)).writes.contains(b),
        !written ==> pending_after(accesses.take(j)).reads.contains(b),
    ensures
        exists|i: int| #![trigger accesses[i]]
            0 <= i < j && (if written { accesses[i].writes.contains(b) } else { accesses[i].reads.contains(b) })
                && unseparated(accesses, i, j),
    decreases j,
{
    let now = accesses.take(j);
    if j == 0 {
        assert(now =~= Seq::empty());
        assert(!Seq::<u64>::empty().contains(b));
    } else {
        let before = pending_after(now.drop_last());
        let last = accesses[j - 1];
        assert(now.drop_last() =~= accesses.take(j - 1));
        assert(now.last() == last);
        lemma_concat_contains(before.reads, last.reads, b);
        lemma_concat_contains(before.writes, last.writes, b);
        let here = if written { last.writes.contains(b) } else { last.reads.contains(b) };
        if here {
            assert(unseparated(accesses, j - 1, j));
        } else {
            assert(!separates(accesses, j - 1));
            lemma_pending_comes_from(accesses, j - 1, b, written);
            let i = choose|i: int| #![trigger accesses[i]]
                0 <= i < j - 1 && (if written {
                    accesses[i].writes.contains(b)
                } else {
                    accesses[i].reads.contains(b)
                }) && unseparated(accesses, i, j - 1);
            assert(unseparated(accesses, i, j));
        }
    }
}

/// No barrier is idle: the dispatch behind it conflicts with one that no
/// earlier barrier separates from it.
pub proof fn every_barrier_is_needed(accesses: Seq<AccessView>, j: int)
    requires
        0 <= j < accesses.len(),
        barrier_at(accesses, j),
    ensures
        exists|i: int| #![trigger accesses[i]]
            0 <= i < j && accesses[j].conflicts(accesses[i]) && unseparated(accesses, i, j),
{
    let pending = pending_after(accesses.take(j));
    let a = accesses[j];
    if exists|b: u64| #[trigger] a.reads.contains(b) && pending.writes.contains(b) {
        let b = choose|b: u64| #[trigger] a.reads.contains(b) && pending.writes.contains(b);
        lemma_pending_comes_from(accesses, j, b, true);
        let i = choose|i: int| #![trigger accesses[i]]
            0 <= i < j && accesses[i].writes.contains(b) && unseparated(accesses, i, j);
        assert(a.conflicts(accesses[i]));
    } else if exists|b: u64| #[trigger] a.writes.contains(b) && pending.writes.contains(b) {
        let b = choose|b: u64| #[trigger] a.writes.contains(b) && pending.writes.contains(b);
        lemma_pending_comes_from(accesses, j, b, true);
        let i = choose|i: int| #![trigger accesses[i]]
            0 <= i < j && accesses[i].writes.contains(b) && unseparated(accesses, i, j);
        assert(a.conflicts(accesses[i]));
    } else {
        let b = choose|b: u64| #[trigger] a.writes.contains(b) && pending.reads.contains(b);
        lemma_pending_comes_from(accesses, j, b, false);
        let i = choose|i: int| #![trigger accesses[i]]
            0 <= i < j && accesses[i].reads.contains(b) && unseparated(accesses, i, j);
        assert(a.conflicts(accesses[i]));
    }
}

/// Dispatches that do not conflict are recorded without a barrier.
pub proof fn independent_dispatches_have_no_barrier(accesses: Seq<AccessView>)
    requires
        forall|i: int, j: int| 0 <= i < j < accesses.len() ==> !(#[trigger] accesses[j]).conflicts(
            #[trigger] accesses[i],
        ),
    ensures
        barrier_count(accesses, accesses.len() as int) == 0,
        forall|j: int| 0 <= j < accesses.len() ==> !#[trigger] barrier_at(accesses, j),
{
    assert forall|j: int| 0 <= j < accesses.len() implies !#[trigger] barrier_at(accesses, j) by {
        if barrier_at(accesses, j) {
            every_barrier_is_needed(accesses, j);
        }
    }
    lemma_no_barriers(accesses, accesses.len() as int);
}

proof fn lemma_no_barriers(accesses: Seq<AccessView>, upto: int)
    requires
        0 <= upto <= accesses.len(),
        forall|j: int| 0 <= j < accesses.len() ==> !#[trigger] barrier_at(accesses, j),
    ensures
        barrier_count(accesses, upto) == 0,
    decreases upto,
{
    if upto > 0 {
        lemma_no_barriers(accesses, upto - 1);
    }
}

} // verus!
