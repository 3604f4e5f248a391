//! Measured kernel choices and the text that keeps them across processes.
//!
//! The shape heuristic is the prior; measuring every eligible kernel on a
//! real shape gives a winner for it. Winners are stored as text, one line
//! per shape, behind a header that names the driver version and a hash of
//! every compiled shader, so that a store written for another driver or
//! another shader build is discarded.

use crate::context::VulkanContext;
use crate::pipeline::catalog::{KernelSelection, KERNEL_COUNT};
use crate::pipeline::names::{kernel_name_is_word, registry_lookup_finds_kernel};
use crate::text::{
    decimal, decimal_round_trip, hexadecimal, hexadecimal_round_trip, is_line, is_white_space,
    is_word, joined, lemma_decimal_digits, lemma_hexadecimal_digits, lemma_hexadecimal_len,
    lemma_joined_push,
    lemma_lines_of_terminated, lemma_terminated_push, lemma_words_of_joined, lines_of, number_of,
    padded_hexadecimal, parse_number, piece, push_decimal, push_padded_hexadecimal, push_text,
    spelled, split_lines, split_words, starts_with, terminated, to_chars, words_of,
};
use vstd::prelude::*;

verus! {

/// One GEMM problem shape. What the store path does with the result never
/// changes which kernel is fastest, so it is not part of the key.
#[derive(Copy, Clone, Debug, PartialEq, Eq, Structural)]
pub struct TuneKey {
    pub batch: u32,
    pub m: u32,
    pub n: u32,
    pub k: u32,
    /// B is stored as f16; each storage type has its own winner.
    pub b_f16: bool,
}

impl TuneKey {
    /// The order in which the store lists shapes.
    pub open spec fn before(self, other: TuneKey) -> bool {
        if self.batch != other.batch {
            self.batch < other.batch
        } else if self.m != other.m {
            self.m < other.m
        } else if self.n != other.n {
            self.n < other.n
        } else if self.k != other.k {
            self.k < other.k
        } else {
            !self.b_f16 && other.b_f16
        }
    }

    fn comes_before(self, other: TuneKey) -> (r: bool)
        ensures
            r == self.before(other),
    {
        if self.batch != other.batch {
            self.batch < other.batch
        } else if self.m != other.m {
            self.m < other.m
        } else if self.n != other.n {
            self.n < other.n
        } else if self.k != other.k {
            self.k < other.k
        } else {
            !self.b_f16 && other.b_f16
        }
    }
}

/// Measured winner for one shape.
#[derive(Copy, Clone, Debug, PartialEq, Eq, Structural)]
pub struct TuneEntry {
    /// Best data-parallel kernel (position in the registry).
    pub kernel: usize,
    /// When set, single plain calls take the two-stage split-K path with
    /// this split count: it measured faster than every data-parallel kernel.
    pub splitk2_splits: Option<u32>,
}

impl TuneEntry {
    /// The kernel is in the registry.
    pub open spec fn valid(self) -> bool {
        self.kernel < KERNEL_COUNT
    }

    /// The split count, where there is one, is one that a dispatch can carry.
    pub open spec fn usable(self) -> bool {
        self.splitk2_splits matches Some(s) ==> 2 <= s <= 0xFFFF
    }

    /// What is loaded again once this winner was stored: a split count that
    /// no dispatch can carry is left out.
    pub open spec fn reloaded(self) -> TuneEntry {
        TuneEntry {
            splitk2_splits: if self.usable() { self.splitk2_splits } else { None },
            ..self
        }
    }
}

/// FNV-1a of `bytes`, continued from `hash`.
pub open spec fn fnv1a(hash: u64, bytes: Seq<u8>) -> u64
    decreases bytes.len(),
{
    if bytes.len() == 0 {
        hash
    } else {
        ((fnv1a(hash, bytes.drop_last()) ^ (bytes.last() as u64)) * 0x100000001b3 % 0x1_0000_0000_0000_0000) as u64
    }
}

/// All binaries, one after the other.
pub open spec fn all_bytes(binaries: Seq<Vec<u8>>) -> Seq<u8>
    decreases binaries.len(),
{
    if binaries.len() == 0 {
        Seq::empty()
    } else {
        all_bytes(binaries.drop_last()) + binaries.last()@
    }
}

/// FNV-1a over every compiled shader, in registry order. Any shader edit or
/// registry reorder changes it.
pub fn shader_registry_hash(binaries: &[Vec<u8>]) -> (r: u64)
    ensures
        r == fnv1a(0xcbf29ce484222325, all_bytes(binaries@)),
{
    let mut h: u64 = 0xcbf29ce484222325;
    let mut i: usize = 0;
    while i < binaries.len()
        invariant
            i <= binaries@.len(),
            h == fnv1a(0xcbf29ce484222325, all_bytes(binaries@.take(i as int))),
        decreases binaries.len() - i,
    {
        let spv: &Vec<u8> = &binaries[i];
        let ghost done = all_bytes(binaries@.take(i as int));
        let mut j: usize = 0;
        proof {
            assert(done + spv@.take(0) =~= done);
        }
        while j < spv.len()
            invariant
                j <= spv@.len(),
                h == fnv1a(0xcbf29ce484222325, done + spv@.take(j as int)),
            decreases spv.len() - j,
        {
            proof {
                let next = done + spv@.take(j + 1);
                assert(next.drop_last() =~= done + spv@.take(j as int));
                assert(next.last() == spv@[j as int]);
            }
            let mixed: u64 = h ^ (spv[j] as u64);
            h = mixed.wrapping_mul(0x100000001b3);
            j = j + 1;
        }
        proof {
            assert(spv@.take(spv@.len() as int) =~= spv@);
            let next = binaries@.take(i + 1);
            assert(next.drop_last() =~= binaries@.take(i as int));
            assert(next.last() == *spv);
        }
        i = i + 1;
    }
    assert(binaries@.take(i as int) =~= binaries@);
    h
}

/// File name of the store of a device.
pub open spec fn store_name(vendor_id: u32, device_id: u32) -> Seq<char> {
    "tuned_kernels_v"@ + padded_hexadecimal(vendor_id as nat, 4) + "_"@ + padded_hexadecimal(
        device_id as nat,
        4,
    ) + ".txt"@
}

/// File name of the store of a device.
pub fn tune_store_name(ctx: &VulkanContext) -> (r: String)
    ensures
        r@ == store_name(ctx.vendor_id, ctx.device_id),
{
    let mut out: String = String::new();
    push_text(&mut out, "tuned_kernels_v");
    push_padded_hexadecimal(&mut out, ctx.vendor_id as u64, 4);
    push_text(&mut out, "_");
    push_padded_hexadecimal(&mut out, ctx.device_id as u64, 4);
    push_text(&mut out, ".txt");
    assert(out@ =~= store_name(ctx.vendor_id, ctx.device_id));
    out
}

/// First line of a store.
pub open spec fn header_text(driver_version: u32, shader_hash: u64) -> Seq<char> {
    "tensor-ash-tune-v3 driver="@ + decimal(driver_version as nat) + " shaders="@
        + padded_hexadecimal(shader_hash as nat, 16)
}

/// First line of a store: what it was measured with.
pub fn header_line(ctx: &VulkanContext, shader_hash: u64) -> (r: String)
    ensures
        r@ == header_text(ctx.driver_version, shader_hash),
{
    let mut out: String = String::new();
    push_text(&mut out, "tensor-ash-tune-v3 driver=");
    push_decimal(&mut out, ctx.driver_version as u64);
    push_text(&mut out, " shaders=");
    push_padded_hexadecimal(&mut out, shader_hash, 16);
    assert(out@ =~= header_text(ctx.driver_version, shader_hash));
    out
}

/// The registry position of the first kernel from `from` on with this name.
pub open spec fn position_from(name: Seq<char>, from: int) -> Option<usize>
    decreases KERNEL_COUNT - from,
{
    if from < 0 || from >= KERNEL_COUNT {
        None
    } else if KernelSelection::of_index(from).spec_of().name@ == name {
        Some(from as usize)
    } else {
        position_from(name, from + 1)
    }
}

/// The registry position of the kernel with this name.
pub fn registry_position(name: &[char]) -> (r: Option<usize>)
    ensures
        r == position_from(name@, 0),
{
    let mut i: usize = 0;
    while i < KERNEL_COUNT
        invariant
            i <= KERNEL_COUNT,
            position_from(name@, 0) == position_from(name@, i as int),
        decreases KERNEL_COUNT - i,
    {
        let chars: Vec<char> = to_chars(KernelSelection::at_index(i).kernel_spec().name);
        if same_chars(&chars, name) {
            return Some(i);
        }
        i = i + 1;
    }
    None
}

fn same_chars(a: &[char], b: &[char]) -> (r: bool)
    ensures
        r == (a@ == b@),
{
    if a.len() != b.len() {
        return false;
    }
    let mut i: usize = 0;
    while i < a.len()
        invariant
            i <= a@.len(),
            a@.len() == b@.len(),
            forall|j: int| 0 <= j < i ==> a@[j] == b@[j],
        decreases a.len() - i,
    {
        if a[i] != b[i] {
            return false;
        }
        i = i + 1;
    }
    assert(a@ =~= b@);
    true
}

/// What the words behind the kernel name say: the split count of the last
/// `splitk2=` word, where it is a usable one, and whether `bf16` occurs.
pub open spec fn marks_of(words: Seq<Seq<char>>) -> (Option<u32>, bool)
    decreases words.len(),
{
    if words.len() == 0 {
        (None, false)
    } else {
        let (splits, b_f16) = marks_of(words.drop_last());
        let word = words.last();
        if starts_with(word, "splitk2="@) {
            match number_of(word.skip("splitk2="@.len() as int)) {
                Some(s) => if 2 <= s <= 0xFFFF {
                    (Some(s), b_f16)
                } else {
                    (None, b_f16)
                },
                None => (None, b_f16),
            }
        } else if word == "bf16"@ {
            (splits, true)
        } else {
            (splits, b_f16)
        }
    }
}

/// The winner that a line's words state; none where the line is malformed
/// or names no kernel.
pub open spec fn words_entry(words: Seq<Seq<char>>) -> Option<(TuneKey, TuneEntry)> {
    if words.len() < 5 {
        None
    } else {
        match (
            number_of(words[0]),
            number_of(words[1]),
            number_of(words[2]),
            number_of(words[3]),
            position_from(words[4], 0),
        ) {
            (Some(batch), Some(m), Some(n), Some(k), Some(kernel)) => {
                let (splitk2_splits, b_f16) = marks_of(words.skip(5));
                Some((TuneKey { batch, m, n, k, b_f16 }, TuneEntry { kernel, splitk2_splits }))
            },
            _ => None,
        }
    }
}

/// The winners that lines state; of two for one shape the later counts.
pub open spec fn lines_map(lines: Seq<Seq<char>>) -> Map<TuneKey, TuneEntry>
    decreases lines.len(),
{
    if lines.len() == 0 {
        Map::empty()
    } else {
        match words_entry(words_of(lines.last())) {
            Some((key, entry)) => lines_map(lines.drop_last()).insert(key, entry),
            None => lines_map(lines.drop_last()),
        }
    }
}

/// The winners that a store holds: none unless its first line is `header`.
pub open spec fn store_map(text: Seq<char>, header: Seq<char>) -> Map<TuneKey, TuneEntry> {
    let lines = lines_of(text);
    if lines.len() > 0 && lines[0] == header {
        lines_map(lines.skip(1))
    } else {
        Map::empty()
    }
}

/// The words of a store line.
pub open spec fn entry_words(key: TuneKey, entry: TuneEntry) -> Seq<Seq<char>> {
    let base = seq![
        decimal(key.batch as nat),
        decimal(key.m as nat),
        decimal(key.n as nat),
        decimal(key.k as nat),
        KernelSelection::of_index(entry.kernel as int).spec_of().name@,
    ];
    let split = match entry.splitk2_splits {
        Some(s) => base.push("splitk2="@ + decimal(s as nat)),
        None => base,
    };
    if key.b_f16 {
        split.push("bf16"@)
    } else {
        split
    }
}

/// The lines of a store, behind its header.
pub open spec fn entry_lines(entries: Seq<(TuneKey, TuneEntry)>) -> Seq<Seq<char>> {
    Seq::new(entries.len(), |i: int| joined(entry_words(entries[i].0, entries[i].1)))
}

/// The text of a store.
pub open spec fn store_text(header: Seq<char>, entries: Seq<(TuneKey, TuneEntry)>) -> Seq<char> {
    terminated(seq![header] + entry_lines(entries))
}

/// The winners of a list, the later of two for one shape counting.
pub open spec fn entries_map(entries: Seq<(TuneKey, TuneEntry)>) -> Map<TuneKey, TuneEntry>
    decreases entries.len(),
{
    if entries.len() == 0 {
        Map::empty()
    } else {
        entries_map(entries.drop_last()).insert(entries.last().0, entries.last().1)
    }
}

/// What is loaded again once these winners were stored.
pub open spec fn reloaded_map(map: Map<TuneKey, TuneEntry>) -> Map<TuneKey, TuneEntry> {
    map.map_values(|entry: TuneEntry| entry.reloaded())
}

/// Strictly ascending by key.
pub open spec fn ascending(entries: Seq<(TuneKey, TuneEntry)>) -> bool {
    forall|i: int, j: int|
        0 <= i < j < entries.len() ==> (#[trigger] entries[i]).0.before((#[trigger] entries[j]).0)
}

/// The winners of a map as the store lists them: ascending by shape. There is
/// one such list ([`one_listing`]).
pub open spec fn listing(map: Map<TuneKey, TuneEntry>) -> Seq<(TuneKey, TuneEntry)> {
    choose|entries: Seq<(TuneKey, TuneEntry)>|
        #![trigger entries_map(entries)]
        ascending(entries) && entries_map(entries) == map
}

/// Every winner is valid.
pub open spec fn all_valid(entries: Seq<(TuneKey, TuneEntry)>) -> bool {
    forall|i: int| 0 <= i < entries.len() ==> (#[trigger] entries[i]).1.valid()
}

/// The measured winners of a device, ordered by shape.
pub struct TunedMap {
    entries: Vec<(TuneKey, TuneEntry)>,
}

impl View for TunedMap {
    type V = Map<TuneKey, TuneEntry>;

    closed spec fn view(&self) -> Map<TuneKey, TuneEntry> {
        entries_map(self.entries@)
    }
}

/// In a strictly ascending list each winner is the one of its shape, and no
/// other shape has one.
proof fn lemma_entries_map(entries: Seq<(TuneKey, TuneEntry)>)
    requires
        ascending(entries),
    ensures
        forall|i: int| #![trigger entries[i]]
            0 <= i < entries.len() ==> entries_map(entries).contains_pair(entries[i].0, entries[i].1),
        forall|key: TuneKey| #[trigger] entries_map(entries).contains_key(key) ==> exists|i: int|
            0 <= i < entries.len() && (#[trigger] entries[i]).0 == key,
    decreases entries.len(),
{
    if entries.len() > 0 {
        let front = entries.drop_last();
        assert(ascending(front)) by {
            assert forall|i: int, j: int| 0 <= i < j < front.len() implies (#[trigger] front[i]).0.before(
                (#[trigger] front[j]).0,
            ) by {
                assert(entries[i].0.before(entries[j].0));
            }
        }
        lemma_entries_map(front);
        let last = entries.len() - 1;
        assert forall|i: int| #![trigger entries[i]] 0 <= i < entries.len() implies entries_map(
            entries,
        ).contains_pair(entries[i].0, entries[i].1) by {
            if i < last {
                assert(front[i] == entries[i]);
                assert(entries[i].0.before(entries[last].0));
            }
        }
        assert forall|key: TuneKey| #[trigger] entries_map(entries).contains_key(key) implies exists|
            i: int,
        |
            0 <= i < entries.len() && (#[trigger] entries[i]).0 == key by {
            if key == entries[last].0 {
            } else {
                assert(entries_map(front).contains_key(key));
                let i = choose|i: int| 0 <= i < front.len() && (#[trigger] front[i]).0 == key;
                assert(entries[i].0 == key);
            }
        }
    }
}

impl TunedMap {
    /// The entries are strictly ascending by key and valid.
    #[verifier::type_invariant]
    pub closed spec fn well_formed(self) -> bool {
        ascending(self.entries@) && all_valid(self.entries@)
    }

    /// The entries, ascending by shape.
    pub closed spec fn listed(self) -> Seq<(TuneKey, TuneEntry)> {
        self.entries@
    }

    /// No winners.
    pub fn new() -> (r: Self)
        ensures
            r@ == Map::<TuneKey, TuneEntry>::empty(),
    {
        TunedMap { entries: Vec::new() }
    }

    /// The winner of a shape.
    pub fn get(&self, key: TuneKey) -> (r: Option<TuneEntry>)
        ensures
            r == (if self@.contains_key(key) { Some(self@[key]) } else { None }),
            r matches Some(entry) ==> entry.valid(),
    {
        proof {
            use_type_invariant(self);
            lemma_entries_map(self.entries@);
        }
        let mut i: usize = 0;
        while i < self.entries.len()
            invariant
                i <= self.entries@.len(),
                ascending(self.entries@),
                all_valid(self.entries@),
                self@ == entries_map(self.entries@),
                forall|j: int| 0 <= j < i ==> (#[trigger] self.entries@[j]).0 != key,
            decreases self.entries.len() - i,
        {
            proof {
                lemma_entries_map(self.entries@);
            }
            if self.entries[i].0 == key {
                return Some(self.entries[i].1);
            }
            i = i + 1;
        }
        proof {
            lemma_entries_map(self.entries@);
        }
        None
    }

    /// Records a winner.
    pub fn insert(&mut self, key: TuneKey, entry: TuneEntry)
        requires
            entry.valid(),
        ensures
            final(self)@ == old(self)@.insert(key, entry),
    {
        *self = self.with(key, entry);
    }

    /// These winners and one more.
    pub fn with(&self, key: TuneKey, entry: TuneEntry) -> (r: TunedMap)
        requires
            entry.valid(),
        ensures
            r@ == self@.insert(key, entry),
    {
        proof {
            use_type_invariant(self);
        }
        let mut out: Vec<(TuneKey, TuneEntry)> = Vec::new();
        let mut i: usize = 0;
        let ghost all = self.entries@;
        while i < self.entries.len() && self.entries[i].0.comes_before(key)
            invariant
                i <= self.entries@.len(),
                all == self.entries@,
                out@ =~= all.take(i as int),
                forall|j: int| 0 <= j < i ==> (#[trigger] all[j]).0.before(key),
            decreases self.entries.len() - i,
        {
            out.push(self.entries[i]);
            i = i + 1;
        }
        out.push((key, entry));
        let ghost head = i as int;
        if i < self.entries.len() && self.entries[i].0 == key {
            i = i + 1;
        }
        let ghost from = i as int;
        while i < self.entries.len()
            invariant
                0 <= head <= from <= i <= self.entries@.len(),
                all == self.entries@,
                out@ =~= all.take(head).push((key, entry)) + all.subrange(from, i as int),
            decreases self.entries.len() - i,
        {
            out.push(self.entries[i]);
            i = i + 1;
        }
        proof {
            assert(out@ =~= all.take(head).push((key, entry)) + all.skip(from));
            lemma_inserted(all, key, entry, head, from);
        }
        TunedMap { entries: out }
    }

    /// Drops the winners whose kernel is not there.
    pub fn retain_present(&mut self, present: &[bool])
        requires
            present@.len() == KERNEL_COUNT,
        ensures
            forall|key: TuneKey| #[trigger] final(self)@.contains_key(key) <==> old(self)@.contains_key(key)
                && present@[old(self)@[key].kernel as int],
            forall|key: TuneKey| #[trigger]
                final(self)@.contains_key(key) ==> final(self)@[key] == old(self)@[key]
                    && final(self)@[key].valid(),
    {
        proof {
            use_type_invariant(&*self);
        }
        let ghost all = self.entries@;
        let mut out: Vec<(TuneKey, TuneEntry)> = Vec::new();
        let mut i: usize = 0;
        while i < self.entries.len()
            invariant
                i <= self.entries@.len(),
                all == self.entries@,
                ascending(all),
                all_valid(all),
                present@.len() == KERNEL_COUNT,
                ascending(out@),
                all_valid(out@),
                forall|p: int| 0 <= p < out@.len() ==> kept(all, i as int, present@, #[trigger] out@[p]),
                forall|q: int| 0 <= q < i && present@[(#[trigger] all[q]).1.kernel as int]
                    ==> out@.contains(all[q]),
            decreases self.entries.len() - i,
        {
            let pair: (TuneKey, TuneEntry) = self.entries[i];
            assert(pair == all[i as int]);
            assert(all[i as int].1.valid());
            let ghost before = out@;
            if present[pair.1.kernel] {
                out.push(pair);
                proof {
                    assert forall|p: int, q: int| 0 <= p < q < out@.len() implies (#[trigger] out@[p]).0.before(
                        (#[trigger] out@[q]).0,
                    ) by {
                        assert(out@[p] == before[p]);
                        if q < before.len() {
                            assert(out@[q] == before[q]);
                        } else {
                            assert(kept(all, i as int, present@, before[p]));
                            let w = choose|w: int|
                                0 <= w < i && #[trigger] all[w] == before[p];
                            assert(all[w].0.before(all[i as int].0));
                        }
                    }
                    assert forall|p: int| 0 <= p < out@.len() implies (#[trigger] out@[p]).1.valid() by {
                        if p < before.len() {
                            assert(out@[p] == before[p]);
                        }
                    }
                    assert forall|p: int| 0 <= p < out@.len() implies kept(
                        all,
                        i + 1,
                        present@,
                        #[trigger] out@[p],
                    ) by {
                        if p < before.len() {
                            assert(out@[p] == before[p]);
                            lemma_kept_longer(all, i as int, present@, before[p]);
                        } else {
                            assert(all[i as int] == out@[p]);
                        }
                    }
                    assert forall|q: int| 0 <= q < i + 1 && present@[(#[trigger] all[q]).1.kernel as int]
                        implies out@.contains(all[q]) by {
                        if q < i {
                            assert(before.contains(all[q]));
                            let p = choose|p: int| 0 <= p < before.len() && before[p] == all[q];
                            assert(out@[p] == all[q]);
                        } else {
                            assert(out@[before.len() as int] == all[q]);
                        }
                    }
                }
            } else {
                proof {
                    assert forall|p: int| 0 <= p < out@.len() implies kept(
                        all,
                        i + 1,
                        present@,
                        #[trigger] out@[p],
                    ) by {
                        lemma_kept_longer(all, i as int, present@, out@[p]);
                    }
                }
            }
            i = i + 1;
        }
        proof {
            lemma_entries_map(all);
            lemma_entries_map(out@);
            let new = entries_map(out@);
            let was = entries_map(all);
            assert forall|key: TuneKey| #[trigger] new.contains_key(key) implies was.contains_key(key)
                && present@[was[key].kernel as int] && new[key] == was[key] && new[key].valid() by {
                let p = choose|p: int| 0 <= p < out@.len() && (#[trigger] out@[p]).0 == key;
                assert(new.contains_pair(out@[p].0, out@[p].1));
                assert(kept(all, all.len() as int, present@, out@[p]));
                let q = choose|q: int|
                    0 <= q < all.len() && #[trigger] all[q] == out@[p]
                        && present@[all[q].1.kernel as int];
                assert(was.contains_pair(all[q].0, all[q].1));
            }
            assert forall|key: TuneKey| was.contains_key(key) && present@[was[key].kernel as int] implies
                #[trigger] new.contains_key(key) by {
                let q = choose|q: int| 0 <= q < all.len() && (#[trigger] all[q]).0 == key;
                assert(was.contains_pair(all[q].0, all[q].1));
                assert(out@.contains(all[q]));
                let p = choose|p: int| 0 <= p < out@.len() && out@[p] == all[q];
                assert(new.contains_pair(out@[p].0, out@[p].1));
            }
        }
        self.entries = out;
    }

    /// The store as text: the header, then one line per shape, ascending.
    pub fn to_text(&self, header: &str) -> (r: String)
        ensures
            r@ == store_text(header@, listing(self@)),
            is_line(header@) ==> store_map(r@, header@) == reloaded_map(self@),
    {
        proof {
            use_type_invariant(self);
            winners_are_listed_in_order(*self);
            if is_line(header@) {
                stored_winners_load_again(*self, header@);
            }
        }
        let mut out: String = String::new();
        push_text(&mut out, header);
        out.push('\n');
        let ghost all = self.entries@;
        let mut i: usize = 0;
        proof {
            let lines = seq![header@] + entry_lines(all.take(0));
            assert(lines =~= seq![header@]);
            assert(lines.skip(1) =~= Seq::empty());
            reveal_with_fuel(terminated, 2);
            assert(out@ =~= terminated(lines));
        }
        while i < self.entries.len()
            invariant
                i <= self.entries@.len(),
                all == self.entries@,
                all_valid(all),
                out@ == terminated(seq![header@] + entry_lines(all.take(i as int))),
            decreases self.entries.len() - i,
        {
            let key: TuneKey = self.entries[i].0;
            let entry: TuneEntry = self.entries[i].1;
            assert(all[i as int].1.valid());
            push_entry_line(&mut out, key, entry);
            out.push('\n');
            proof {
                let lines = seq![header@] + entry_lines(all.take(i as int));
                let next = seq![header@] + entry_lines(all.take(i + 1));
                let line = joined(entry_words(key, entry));
                assert(next =~= lines.push(line));
                lemma_terminated_push(lines, line);
                assert(out@ =~= terminated(lines) + line + seq!['\n']);
            }
            i = i + 1;
        }
        assert(all.take(i as int) =~= all);
        out
    }

    /// The winners that a stored text holds: none where its first line is
    /// not `header`; malformed lines and unknown kernels are passed over.
    pub fn from_text(text: &str, header: &str) -> (r: Self)
        ensures
            r@ == store_map(text@, header@),
    {
        let mut map: TunedMap = TunedMap::new();
        let chars: Vec<char> = to_chars(text);
        let lines: Vec<Vec<char>> = split_lines(&chars);
        let ghost spelt = spelled(lines@);
        if lines.len() == 0 {
            return map;
        }
        let head: Vec<char> = to_chars(header);
        assert(spelt[0] == lines@[0]@);
        if !same_chars(&lines[0], &head) {
            return map;
        }
        let ghost body = spelt.skip(1);
        let mut i: usize = 1;
        assert(body.take(0) =~= Seq::empty());
        while i < lines.len()
            invariant
                1 <= i <= lines@.len(),
                spelt == spelled(lines@),
                body == spelt.skip(1),
                map@ == lines_map(body.take(i - 1)),
            decreases lines.len() - i,
        {
            let words: Vec<Vec<char>> = split_words(&lines[i]);
            proof {
                let next = body.take(i as int);
                assert(next.drop_last() =~= body.take(i - 1));
                assert(next.last() == lines@[i as int]@);
            }
            if let Some((key, entry)) = parse_entry(&words) {
                map.insert(key, entry);
            }
            i = i + 1;
        }
        assert(body.take(i - 1) =~= body);
        map
    }
}

/// Whether `pair` is one of the first `upto` and its kernel is there.
spec fn kept(
    all: Seq<(TuneKey, TuneEntry)>,
    upto: int,
    present: Seq<bool>,
    pair: (TuneKey, TuneEntry),
) -> bool {
    exists|q: int| 0 <= q < upto && #[trigger] all[q] == pair && present[all[q].1.kernel as int]
}

proof fn lemma_kept_longer(
    all: Seq<(TuneKey, TuneEntry)>,
    upto: int,
    present: Seq<bool>,
    pair: (TuneKey, TuneEntry),
)
    requires
        kept(all, upto, present, pair),
    ensures
        kept(all, upto + 1, present, pair),
{
    let q = choose|q: int|
        0 <= q < upto && #[trigger] all[q] == pair && present[all[q].1.kernel as int];
    assert(all[q] == pair);
}

/// A list with a winner put in its place.
proof fn lemma_inserted(
    all: Seq<(TuneKey, TuneEntry)>,
    key: TuneKey,
    entry: TuneEntry,
    head: int,
    from: int,
)
    requires
        ascending(all),
        all_valid(all),
        entry.valid(),
        0 <= head <= from <= head + 1,
        from <= all.len(),
        forall|j: int| 0 <= j < head ==> (#[trigger] all[j]).0.before(key),
        head < all.len() ==> !all[head].0.before(key),
        from == (if head < all.len() && all[head].0 == key { head + 1 } else { head }),
    ensures
        ({
            let out = all.take(head).push((key, entry)) + all.skip(from);
            &&& ascending(out)
            &&& all_valid(out)
            &&& entries_map(out) == entries_map(all).insert(key, entry)
        }),
{
    let out = all.take(head).push((key, entry)) + all.skip(from);
    assert forall|j: int| from <= j < all.len() implies key.before((#[trigger] all[j]).0) by {
        if head < j {
            assert(all[head].0.before(all[j].0));
        }
    }
    assert forall|i: int, j: int| 0 <= i < j < out.len() implies (#[trigger] out[i]).0.before(
        (#[trigger] out[j]).0,
    ) by {
        if i < head {
            assert(out[i] == all[i]);
        } else if i > head {
            assert(out[i] == all[i - head - 1 + from]);
        }
        if j < head {
            assert(out[j] == all[j]);
        } else if j > head {
            assert(out[j] == all[j - head - 1 + from]);
        }
    }
    assert forall|i: int| 0 <= i < out.len() implies (#[trigger] out[i]).1.valid() by {
        if i < head {
            assert(out[i] == all[i]);
        } else if i > head {
            assert(out[i] == all[i - head - 1 + from]);
        }
    }
    lemma_entries_map(all);
    lemma_entries_map(out);
    let new = entries_map(out);
    let want = entries_map(all).insert(key, entry);
    assert forall|k: TuneKey| new.contains_key(k) <==> want.contains_key(k) by {
        if new.contains_key(k) {
            let i = choose|i: int| 0 <= i < out.len() && (#[trigger] out[i]).0 == k;
            if i < head {
                assert(out[i] == all[i]);
                assert(entries_map(all).contains_pair(all[i].0, all[i].1));
            } else if i > head {
                let q = i - head - 1 + from;
                assert(out[i] == all[q]);
                assert(entries_map(all).contains_pair(all[q].0, all[q].1));
            }
        }
        if want.contains_key(k) {
            if k == key {
                assert(out[head] == (key, entry));
                assert(new.contains_pair(out[head].0, out[head].1));
            } else {
                let i = choose|i: int| 0 <= i < all.len() && (#[trigger] all[i]).0 == k;
                if i < head {
                    assert(out[i] == all[i]);
                    assert(new.contains_pair(out[i].0, out[i].1));
                } else {
                    let p = i - from + head + 1;
                    assert(out[p] == all[i]);
                    assert(new.contains_pair(out[p].0, out[p].1));
                }
            }
        }
    }
    assert forall|k: TuneKey| new.contains_key(k) implies new[k] == want[k] by {
        let i = choose|i: int| 0 <= i < out.len() && (#[trigger] out[i]).0 == k;
        assert(new.contains_pair(out[i].0, out[i].1));
        if i < head {
            assert(out[i] == all[i]);
            assert(entries_map(all).contains_pair(all[i].0, all[i].1));
            assert(all[i].0.before(key));
        } else if i > head {
            let q = i - head - 1 + from;
            assert(out[i] == all[q]);
            assert(entries_map(all).contains_pair(all[q].0, all[q].1));
            assert(key.before(all[q].0));
        }
    }
    assert(new =~= want);
}

fn push_entry_line(out: &mut String, key: TuneKey, entry: TuneEntry)
    requires
        entry.valid(),
    ensures
        final(out)@ == old(out)@ + joined(entry_words(key, entry)),
{
    let ghost start = out@;
    push_decimal(out, key.batch as u64);
    out.push(' ');
    push_decimal(out, key.m as u64);
    out.push(' ');
    push_decimal(out, key.n as u64);
    out.push(' ');
    push_decimal(out, key.k as u64);
    out.push(' ');
    push_text(out, KernelSelection::at_index(entry.kernel).kernel_spec().name);
    let ghost name = KernelSelection::of_index(entry.kernel as int).spec_of().name@;
    let ghost w1 = seq![decimal(key.batch as nat)];
    let ghost w2 = w1.push(decimal(key.m as nat));
    let ghost w3 = w2.push(decimal(key.n as nat));
    let ghost w4 = w3.push(decimal(key.k as nat));
    let ghost w5 = w4.push(name);
    proof {
        lemma_joined_push(w1, decimal(key.m as nat));
        lemma_joined_push(w2, decimal(key.n as nat));
        lemma_joined_push(w3, decimal(key.k as nat));
        lemma_joined_push(w4, name);
        assert(out@ =~= start + joined(w5));
        assert(w5 =~= seq![
            decimal(key.batch as nat),
            decimal(key.m as nat),
            decimal(key.n as nat),
            decimal(key.k as nat),
            name,
        ]);
    }
    let ghost mut words = w5;
    if let Some(splits) = entry.splitk2_splits {
        push_text(out, " splitk2=");
        push_decimal(out, splits as u64);
        proof {
            let word = "splitk2="@ + decimal(splits as nat);
            lemma_joined_push(words, word);
            reveal_strlit(" splitk2=");
            reveal_strlit("splitk2=");
            assert(" splitk2="@ =~= seq![' '] + "splitk2="@);
            assert(out@ =~= start + joined(words.push(word)));
            words = words.push(word);
        }
    }
    if key.b_f16 {
        push_text(out, " bf16");
        proof {
            lemma_joined_push(words, "bf16"@);
            reveal_strlit(" bf16");
            reveal_strlit("bf16");
            assert(" bf16"@ =~= seq![' '] + "bf16"@);
            assert(out@ =~= start + joined(words.push("bf16"@)));
            words = words.push("bf16"@);
        }
    }
    assert(words == entry_words(key, entry));
}

fn parse_entry(words: &[Vec<char>]) -> (r: Option<(TuneKey, TuneEntry)>)
    ensures
        r == words_entry(spelled(words@)),
        r matches Some(pair) ==> pair.1.valid(),
{
    let ghost spelt = spelled(words@);
    if words.len() < 5 {
        return None;
    }
    assert(spelt[0] == words@[0]@ && spelt[1] == words@[1]@ && spelt[2] == words@[2]@ && spelt[3]
        == words@[3]@ && spelt[4] == words@[4]@);
    let batch: u32 = match parse_number(&words[0]) {
        Some(v) => v,
        None => return None,
    };
    let m: u32 = match parse_number(&words[1]) {
        Some(v) => v,
        None => return None,
    };
    let n: u32 = match parse_number(&words[2]) {
        Some(v) => v,
        None => return None,
    };
    let k: u32 = match parse_number(&words[3]) {
        Some(v) => v,
        None => return None,
    };
    let kernel: usize = match registry_position(&words[4]) {
        Some(v) => v,
        None => return None,
    };
    proof {
        lemma_position_in_range(spelt[4], 0);
    }
    let mark: Vec<char> = to_chars("splitk2=");
    let half: Vec<char> = to_chars("bf16");
    let mut splitk2_splits: Option<u32> = None;
    let mut b_f16: bool = false;
    let ghost tail = spelt.skip(5);
    let mut i: usize = 5;
    assert(tail.take(0) =~= Seq::empty());
    while i < words.len()
        invariant
            5 <= i <= words@.len(),
            spelt == spelled(words@),
            tail == spelt.skip(5),
            mark@ == "splitk2="@,
            half@ == "bf16"@,
            marks_of(tail.take(i - 5)) == (splitk2_splits, b_f16),
            splitk2_splits matches Some(s) ==> 2 <= s <= 0xFFFF,
        decreases words.len() - i,
    {
        let word: &Vec<char> = &words[i];
        proof {
            let next = tail.take(i - 4);
            assert(next.drop_last() =~= tail.take(i - 5));
            assert(next.last() == word@);
        }
        let prefixed: bool = if word.len() >= mark.len() {
            let front: Vec<char> = piece(word, 0, mark.len());
            same_chars(&front, &mark)
        } else {
            false
        };
        assert(prefixed == starts_with(word@, "splitk2="@));
        if prefixed {
            let count: Vec<char> = piece(word, mark.len(), word.len());
            assert(count@ =~= word@.skip("splitk2="@.len() as int));
            splitk2_splits = match parse_number(&count) {
                Some(s) => if 2 <= s && s <= 0xFFFF {
                    Some(s)
                } else {
                    None
                },
                None => None,
            };
        } else if same_chars(word, &half) {
            b_f16 = true;
        }
        i = i + 1;
    }
    assert(tail.take(i - 5) =~= tail);
    Some((TuneKey { batch, m, n, k, b_f16 }, TuneEntry { kernel, splitk2_splits }))
}

proof fn lemma_position_in_range(name: Seq<char>, from: int)
    ensures
        position_from(name, from) matches Some(i) ==> from <= i < KERNEL_COUNT,
    decreases KERNEL_COUNT - from,
{
    if 0 <= from < KERNEL_COUNT {
        lemma_position_in_range(name, from + 1);
    }
}

/// Words joined by spaces hold no other white space, and end in a word.
proof fn lemma_joined_is_line(words: Seq<Seq<char>>)
    requires
        words.len() > 0,
        forall|i: int| 0 <= i < words.len() ==> is_word(#[trigger] words[i]),
    ensures
        joined(words).len() > 0,
        is_line(joined(words)),
    decreases words.len(),
{
    let s = joined(words);
    let w = words[0];
    assert(is_word(w));
    if words.len() == 1 {
        assert forall|i: int| 0 <= i < s.len() implies #[trigger] s[i] != '\n' by {
            assert(!is_white_space(w[i]));
        }
        assert(!is_white_space(w[w.len() - 1]));
    } else {
        let rest = words.skip(1);
        assert forall|i: int| 0 <= i < rest.len() implies is_word(#[trigger] rest[i]) by {
            assert(is_word(words[i + 1]));
        }
        lemma_joined_is_line(rest);
        let t = joined(rest);
        assert(s =~= w + seq![' '] + t);
        assert forall|i: int| 0 <= i < s.len() implies #[trigger] s[i] != '\n' by {
            if i < w.len() {
                assert(!is_white_space(w[i]));
                assert(s[i] == w[i]);
            } else if i > w.len() {
                assert(t[i - w.len() - 1] != '\n');
            }
        }
        assert(s.last() == t.last());
    }
}

/// The words of a store line are words.
proof fn lemma_entry_words(key: TuneKey, entry: TuneEntry)
    requires
        entry.valid(),
    ensures
        forall|i: int| 0 <= i < entry_words(key, entry).len() ==> is_word(
            #[trigger] entry_words(key, entry)[i],
        ),
        entry_words(key, entry).len() >= 5,
{
    lemma_decimal_digits(key.batch as nat);
    lemma_decimal_digits(key.m as nat);
    lemma_decimal_digits(key.n as nat);
    lemma_decimal_digits(key.k as nat);
    kernel_name_is_word(KernelSelection::of_index(entry.kernel as int));
    reveal_strlit("bf16");
    reveal_strlit("splitk2=");
    assert(is_word("bf16"@));
    assert(is_word("splitk2="@));
    if let Some(splits) = entry.splitk2_splits {
        lemma_decimal_digits(splits as nat);
        let d = decimal(splits as nat);
        let word = "splitk2="@ + d;
        assert forall|i: int| 0 <= i < word.len() implies !is_white_space(#[trigger] word[i]) by {
            if i < 8 {
                assert(word[i] == "splitk2="@[i]);
            } else {
                assert(word[i] == d[i - 8]);
            }
        }
        assert(is_word(word));
    }
}

/// The marks of a store line say what was written.
proof fn lemma_marks(key: TuneKey, entry: TuneEntry)
    requires
        entry.valid(),
    ensures
        marks_of(entry_words(key, entry).skip(5)) == (entry.reloaded().splitk2_splits, key.b_f16),
{
    let tail = entry_words(key, entry).skip(5);
    reveal_strlit("bf16");
    reveal_strlit("splitk2=");
    assert(marks_of(Seq::empty()) == (None::<u32>, false));
    match entry.splitk2_splits {
        Some(splits) => {
            let d = decimal(splits as nat);
            let word = "splitk2="@ + d;
            decimal_round_trip(splits);
            assert(word.subrange(0, 8) =~= "splitk2="@);
            assert(starts_with(word, "splitk2="@));
            assert(word.skip(8) =~= d);
            let one = seq![word];
            assert(one.drop_last() =~= Seq::empty());
            assert(marks_of(one) == (entry.reloaded().splitk2_splits, false));
            if key.b_f16 {
                assert(tail =~= seq![word, "bf16"@]);
                assert(tail.drop_last() =~= one);
            } else {
                assert(tail =~= one);
            }
        }
        None => {
            if key.b_f16 {
                assert(tail =~= seq!["bf16"@]);
                assert(tail.drop_last() =~= Seq::empty());
            } else {
                assert(tail =~= Seq::empty());
            }
        }
    }
}

/// Reading a store line gives back the winner that was written, without a
/// split count that no dispatch can carry.
pub proof fn line_round_trip(key: TuneKey, entry: TuneEntry)
    requires
        entry.valid(),
    ensures
        words_entry(words_of(joined(entry_words(key, entry)))) == Some((key, entry.reloaded())),
        entry.usable() ==> entry.reloaded() == entry,
        is_line(joined(entry_words(key, entry))),
{
    let words = entry_words(key, entry);
    lemma_entry_words(key, entry);
    lemma_words_of_joined(words);
    lemma_joined_is_line(words);
    decimal_round_trip(key.batch);
    decimal_round_trip(key.m);
    decimal_round_trip(key.n);
    decimal_round_trip(key.k);
    registry_lookup_finds_kernel(entry.kernel as int, 0);
    lemma_marks(key, entry);
}

proof fn lemma_lines_map(entries: Seq<(TuneKey, TuneEntry)>)
    requires
        all_valid(entries),
    ensures
        lines_map(entry_lines(entries)) == reloaded_map(entries_map(entries)),
    decreases entries.len(),
{
    let lines = entry_lines(entries);
    if entries.len() > 0 {
        let front = entries.drop_last();
        let last = entries.len() - 1;
        assert(all_valid(front)) by {
            assert forall|i: int| 0 <= i < front.len() implies (#[trigger] front[i]).1.valid() by {
                assert(entries[i].1.valid());
            }
        }
        lemma_lines_map(front);
        assert(lines.drop_last() =~= entry_lines(front));
        assert(entries[last].1.valid());
        line_round_trip(entries[last].0, entries[last].1);
        assert(lines.last() == joined(entry_words(entries[last].0, entries[last].1)));
    }
    assert(lines_map(lines) =~= reloaded_map(entries_map(entries)));
}

proof fn lemma_front_map(entries: Seq<(TuneKey, TuneEntry)>)
    requires
        ascending(entries),
        entries.len() > 0,
    ensures
        ascending(entries.drop_last()),
        entries_map(entries.drop_last()) == entries_map(entries).remove(entries.last().0),
{
    let front = entries.drop_last();
    let last = entries.len() - 1;
    assert forall|i: int, j: int| 0 <= i < j < front.len() implies (#[trigger] front[i]).0.before(
        (#[trigger] front[j]).0,
    ) by {
        assert(entries[i].0.before(entries[j].0));
    }
    lemma_entries_map(front);
    assert(!entries_map(front).contains_key(entries[last].0)) by {
        if entries_map(front).contains_key(entries[last].0) {
            let i = choose|i: int|
                0 <= i < front.len() && (#[trigger] front[i]).0 == entries[last].0;
            assert(entries[i].0.before(entries[last].0));
        }
    }
    assert(entries_map(front) =~= entries_map(entries).remove(entries.last().0));
}

/// Two ascending lists of the same winners are the same list.
pub proof fn one_listing(a: Seq<(TuneKey, TuneEntry)>, b: Seq<(TuneKey, TuneEntry)>)
    requires
        ascending(a),
        ascending(b),
        entries_map(a) == entries_map(b),
    ensures
        a == b,
    decreases a.len(),
{
    lemma_entries_map(a);
    lemma_entries_map(b);
    if a.len() == 0 {
        if b.len() > 0 {
            assert(entries_map(b).contains_pair(b[0].0, b[0].1));
        }
        assert(a =~= b);
    } else {
        let la = a.len() - 1;
        assert(entries_map(a).contains_pair(a[la].0, a[la].1));
        assert(entries_map(b).contains_key(a[la].0));
        let j = choose|j: int| 0 <= j < b.len() && (#[trigger] b[j]).0 == a[la].0;
        let lb = b.len() - 1;
        assert(entries_map(b).contains_pair(b[lb].0, b[lb].1));
        assert(entries_map(a).contains_key(b[lb].0));
        let i = choose|i: int| 0 <= i < a.len() && (#[trigger] a[i]).0 == b[lb].0;
        if i < la && j < lb {
            assert(a[i].0.before(a[la].0));
            assert(b[j].0.before(b[lb].0));
        }
        assert(a[la].0 == b[lb].0);
        lemma_front_map(a);
        lemma_front_map(b);
        one_listing(a.drop_last(), b.drop_last());
        assert(a =~= a.drop_last().push(a[la]));
        assert(b =~= b.drop_last().push(b[lb]));
    }
}

/// The winners are listed ascending by shape, each of them and nothing else,
/// and what they are decides how they are listed.
pub proof fn winners_are_listed_in_order(map: TunedMap)
    requires
        map.well_formed(),
    ensures
        ascending(map.listed()),
        entries_map(map.listed()) == map@,
        map.listed() == listing(map@),
{
    assert(ascending(map.entries@) && entries_map(map.entries@) == map@);
    one_listing(map.listed(), listing(map@));
}

/// Winners that were stored are loaded again, all of them and no others,
/// under the header that they were stored with: unchanged where their split
/// counts are usable, as those of every measurement are.
pub proof fn stored_winners_load_again(map: TunedMap, header: Seq<char>)
    requires
        map.well_formed(),
        is_line(header),
    ensures
        store_map(store_text(header, map.listed()), header) == reloaded_map(map@),
        (forall|key: TuneKey| #[trigger] map@.contains_key(key) ==> map@[key].usable())
            ==> store_map(store_text(header, map.listed()), header) == map@,
{
    let entries = map.listed();
    let lines = seq![header] + entry_lines(entries);
    assert forall|i: int| 0 <= i < lines.len() implies is_line(#[trigger] lines[i]) by {
        if i > 0 {
            assert(entries[i - 1].1.valid());
            line_round_trip(entries[i - 1].0, entries[i - 1].1);
        }
    }
    lemma_lines_of_terminated(lines);
    assert(lines.skip(1) =~= entry_lines(entries));
    lemma_lines_map(entries);
    if forall|key: TuneKey| #[trigger] map@.contains_key(key) ==> map@[key].usable() {
        assert(reloaded_map(map@) =~= map@);
    }
}

/// Winners that were stored under one header are not loaded under another.
pub proof fn stale_winners_are_discarded(map: TunedMap, header: Seq<char>, other: Seq<char>)
    requires
        map.well_formed(),
        is_line(header),
        header != other,
    ensures
        store_map(store_text(header, map.listed()), other) == Map::<TuneKey, TuneEntry>::empty(),
{
    let entries = map.listed();
    let lines = seq![header] + entry_lines(entries);
    assert forall|i: int| 0 <= i < lines.len() implies is_line(#[trigger] lines[i]) by {
        if i > 0 {
            assert(entries[i - 1].1.valid());
            line_round_trip(entries[i - 1].0, entries[i - 1].1);
        }
    }
    lemma_lines_of_terminated(lines);
}

/// Another driver version or another shader build has another header.
pub proof fn headers_tell_builds_apart(
    driver: u32,
    hash: u64,
    other_driver: u32,
    other_hash: u64,
)
    requires
        (driver, hash) != (other_driver, other_hash),
    ensures
        header_text(driver, hash) != header_text(other_driver, other_hash),
{
    let head = "tensor-ash-tune-v3 driver="@;
    let mid = " shaders="@;
    let (d1, d2) = (decimal(driver as nat), decimal(other_driver as nat));
    let (h1, h2) = (
        padded_hexadecimal(hash as nat, 16),
        padded_hexadecimal(other_hash as nat, 16),
    );
    let (s1, s2) = (header_text(driver, hash), header_text(other_driver, other_hash));
    assert(vstd::arithmetic::power::pow(16, 16) == 0x1_0000_0000_0000_0000) by {
        reveal_with_fuel(vstd::arithmetic::power::pow, 17);
    }
    lemma_hexadecimal_len(hash as nat, 16);
    lemma_hexadecimal_len(other_hash as nat, 16);
    hexadecimal_round_trip(hash as nat, 16);
    hexadecimal_round_trip(other_hash as nat, 16);
    decimal_round_trip(driver);
    decimal_round_trip(other_driver);
    if s1 == s2 {
        let n = s1.len() as int;
        assert(d1.len() == d2.len());
        assert(s1.skip(n - 16) =~= h1);
        assert(s2.skip(n - 16) =~= h2);
        let from = head.len() as int;
        let to = from + d1.len();
        assert(s1.subrange(from, to) =~= d1);
        assert(s2.subrange(from, to) =~= d2);
    }
}

/// A new driver or a new shader build resets the store: winners that were
/// measured with one are not loaded with another.
pub proof fn other_builds_start_afresh(
    map: TunedMap,
    driver: u32,
    hash: u64,
    other_driver: u32,
    other_hash: u64,
)
    requires
        map.well_formed(),
        (driver, hash) != (other_driver, other_hash),
    ensures
        store_map(
            store_text(header_text(driver, hash), map.listed()),
            header_text(other_driver, other_hash),
        ) == Map::<TuneKey, TuneEntry>::empty(),
{
    headers_tell_builds_apart(driver, hash, other_driver, other_hash);
    header_is_line(driver, hash);
    stale_winners_are_discarded(
        map,
        header_text(driver, hash),
        header_text(other_driver, other_hash),
    );
}

/// The header of a store is a line.
pub proof fn header_is_line(driver_version: u32, shader_hash: u64)
    ensures
        is_line(header_text(driver_version, shader_hash)),
{
    let head = "tensor-ash-tune-v3 driver="@;
    let mid = " shaders="@;
    let d = decimal(driver_version as nat);
    let h = padded_hexadecimal(shader_hash as nat, 16);
    let s = header_text(driver_version, shader_hash);
    reveal_strlit("tensor-ash-tune-v3 driver=");
    reveal_strlit(" shaders=");
    assert forall|i: int| 0 <= i < head.len() implies #[trigger] head[i] != '\n' by {}
    assert forall|i: int| 0 <= i < mid.len() implies #[trigger] mid[i] != '\n' by {}
    lemma_decimal_digits(driver_version as nat);
    lemma_hexadecimal_digits(shader_hash as nat);
    let digits = hexadecimal(shader_hash as nat);
    assert forall|i: int| 0 <= i < h.len() implies #[trigger] h[i] != '\n' && h[i] != '\r' by {
        if digits.len() < 16 {
            if i >= 16 - digits.len() {
                assert(h[i] == digits[i - (16 - digits.len())]);
            }
        }
    }
    assert(h.len() > 0);
    assert forall|i: int| 0 <= i < s.len() implies #[trigger] s[i] != '\n' by {
        if i < head.len() {
            assert(s[i] == head[i]);
        } else if i < head.len() + d.len() {
            assert(s[i] == d[i - head.len()]);
            assert(!is_white_space(d[i - head.len()]));
        } else if i < head.len() + d.len() + mid.len() {
            assert(s[i] == mid[i - head.len() - d.len()]);
        } else {
            assert(s[i] == h[i - head.len() - d.len() - mid.len()]);
        }
    }
    assert(s.last() == h[h.len() - 1]);
}

} // verus!
