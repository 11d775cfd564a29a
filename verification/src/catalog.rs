//! The catalog of cube-map textures and the circular scan that picks the next
//! one a device can show.

use crate::formats::{CompressedFormat, FormatSet};
use vstd::arithmetic::div_mod::{lemma_mod_sub_multiples_vanish, lemma_small_mod};
use vstd::prelude::*;

verus! {

/// One cube-map texture: where its asset lies and which compressed format
/// families a device must support to show it.
#[derive(Debug)]
pub struct CatalogEntry {
    pub path: String,
    pub required: FormatSet,
}

/// What a [`CatalogEntry`] is: the characters of its path and the set of
/// families it requires.
pub struct EntryView {
    pub path: Seq<char>,
    pub required: Set<CompressedFormat>,
}

impl View for CatalogEntry {
    type V = EntryView;

    open spec fn view(&self) -> EntryView {
        EntryView { path: self.path@, required: self.required@ }
    }
}

/// An ordered, fixed list of cube-map textures.
#[derive(Debug)]
pub struct Catalog {
    entries: Vec<CatalogEntry>,
}

/// What a list of entries is: the list of what each entry is.
pub open spec fn views_of(entries: Seq<CatalogEntry>) -> Seq<EntryView> {
    Seq::new(entries.len(), |i: int| entries[i]@)
}

impl View for Catalog {
    type V = Seq<EntryView>;

    closed spec fn view(&self) -> Seq<EntryView> {
        views_of(self.entries@)
    }
}

// The scan, as mathematics

/// For each entry, whether a device that supports the families `supported`
/// can show it.
pub open spec fn support_of(entries: Seq<EntryView>, supported: Set<CompressedFormat>) -> Seq<
    bool,
> {
    Seq::new(entries.len(), |i: int| entries[i].required.subset_of(supported))
}

/// The index reached from `current` by `steps` steps forward in a ring of
/// `len` entries.
pub open spec fn step_from(current: int, steps: int, len: int) -> int {
    (current + steps) % len
}

/// The first step count from `steps` on at which the scan stops: at an entry
/// that is supported, or at the latest after one full turn.
pub open spec fn scan_len_from(support: Seq<bool>, current: int, steps: int) -> int
    decreases support.len() - steps,
{
    if steps >= support.len() || support[step_from(current, steps, support.len() as int)] {
        steps
    } else {
        scan_len_from(support, current, steps + 1)
    }
}

/// How many entries a scan from `current` looks at: it steps forward until it
/// meets a supported entry, and gives up after one full turn.
pub open spec fn scan_len(support: Seq<bool>, current: int) -> int {
    scan_len_from(support, current, 1)
}

/// The entry at which a scan from `current` stops. After a full turn without a
/// supported entry this is `current` itself.
pub open spec fn next_index(support: Seq<bool>, current: int) -> int {
    step_from(current, scan_len(support, current), support.len() as int)
}

/// The entries that a scan from `current` passes over as unsupported, in the
/// order in which it meets them.
pub open spec fn skipped_entries(support: Seq<bool>, current: int) -> Seq<int> {
    let len = scan_len(support, current);
    let passed = if support[next_index(support, current)] {
        len - 1
    } else {
        len
    };
    Seq::new(passed as nat, |j: int| step_from(current, j + 1, support.len() as int))
}

/// The index reached from `start` by advancing `times` times.
pub open spec fn advance_times(support: Seq<bool>, start: int, times: nat) -> int
    decreases times,
{
    if times == 0 {
        start
    } else {
        next_index(support, advance_times(support, start, (times - 1) as nat))
    }
}

/// A list of indices as mathematical integers.
pub open spec fn as_ints(indices: Seq<usize>) -> Seq<int> {
    Seq::new(indices.len(), |j: int| indices[j] as int)
}

// The catalog at run time

/// The outcome of one scan: where it stopped and what it passed over.
#[derive(Debug)]
pub struct Scan {
    /// The entry selected. Equal to the entry the scan started from when no
    /// other entry is supported.
    pub index: usize,
    /// The entries passed over as unsupported, in scan order.
    pub skipped: Vec<usize>,
}

impl Catalog {
    /// A catalog of the given entries, in their order.
    pub fn new(entries: Vec<CatalogEntry>) -> (r: Catalog)
        ensures
            r@ == views_of(entries@),
    {
        Catalog { entries }
    }

    /// The built-in catalog: one uncompressed space cube-map.
    pub fn standard() -> (r: Catalog)
        ensures
            r@ == seq![
                EntryView {
                    path: "textures/space_cubemap.png"@,
                    required: Set::<CompressedFormat>::empty(),
                },
            ],
    {
        let mut entries: Vec<CatalogEntry> = Vec::new();
        entries.push(
            CatalogEntry {
                path: "textures/space_cubemap.png".to_owned(),
                required: FormatSet::none(),
            },
        );
        let r = Catalog { entries };
        assert(r@ =~= seq![
            EntryView {
                path: "textures/space_cubemap.png"@,
                required: Set::<CompressedFormat>::empty(),
            },
        ]);
        r
    }

    /// The number of entries.
    pub fn len(&self) -> (n: usize)
        ensures
            n == self@.len(),
    {
        self.entries.len()
    }

    /// The asset path of entry `index`.
    pub fn path(&self, index: usize) -> (r: &str)
        requires
            index < self@.len(),
        ensures
            r@ == self@[index as int].path,
    {
        self.entries[index].path.as_str()
    }

    /// The families that entry `index` requires.
    pub fn required(&self, index: usize) -> (r: FormatSet)
        requires
            index < self@.len(),
        ensures
            r@ == self@[index as int].required,
    {
        self.entries[index].required
    }

    /// Whether a device that supports `supported` can show entry `index`.
    pub fn is_supported(&self, index: usize, supported: FormatSet) -> (r: bool)
        requires
            index < self@.len(),
        ensures
            r == support_of(self@, supported@)[index as int],
    {
        supported.contains(self.entries[index].required)
    }

    /// Scans for the entry to show after `current`: steps forward through the
    /// catalog, wrapping at its end, and stops at the first entry that
    /// `supported` satisfies, or after one full turn. Every entry passed over
    /// is reported.
    pub fn scan(&self, current: usize, supported: FormatSet) -> (r: Scan)
        requires
            current < self@.len(),
        ensures
            r.index < self@.len(),
            r.index == next_index(support_of(self@, supported@), current as int),
            as_ints(r.skipped@) == skipped_entries(support_of(self@, supported@), current as int),
    {
        let n: usize = self.entries.len();
        let ghost support = support_of(self@, supported@);
        let mut index: usize = current;
        let mut steps: usize = 0;
        let mut found: bool = false;
        let mut skipped: Vec<usize> = Vec::new();
        proof {
            lemma_step_from(current as int, 0, n as int);
        }
        while steps < n && !found
            invariant
                n == self.entries@.len(),
                support == support_of(self@, supported@),
                support.len() == n,
                current < n,
                steps <= n,
                index < n,
                index == step_from(current as int, steps as int, n as int),
                found ==> steps >= 1 && support[index as int],
                forall|j: int|
                    1 <= j < steps ==> !support[#[trigger] step_from(current as int, j, n as int)],
                !found && steps >= 1 ==> !support[index as int],
                skipped@.len() == if found {
                    steps - 1
                } else {
                    steps as int
                },
                forall|j: int|
                    0 <= j < skipped@.len() ==> skipped@[j] == step_from(
                        current as int,
                        j + 1,
                        n as int,
                    ),
            decreases
                    n - steps + if found {
                        0int
                    } else {
                        1int
                    },
        {
            proof {
                lemma_step_from(current as int, steps as int, n as int);
                lemma_step_from(current as int, steps + 1, n as int);
                lemma_step_from(index as int, 1, n as int);
            }
            index = (index + 1) % n;
            steps = steps + 1;
            if supported.contains(self.entries[index].required) {
                found = true;
            } else {
                skipped.push(index);
            }
        }
        proof {
            lemma_scan_stops_at(support, current as int, 1, steps as int);
            assert(as_ints(skipped@) =~= skipped_entries(support, current as int));
        }
        Scan { index, skipped }
    }
}

// What holds of every scan

/// Stepping in the ring wraps around at most once.
pub proof fn lemma_step_from(current: int, steps: int, len: int)
    requires
        0 <= current < len,
        0 <= steps <= len,
    ensures
        step_from(current, steps, len) == if current + steps < len {
            current + steps
        } else {
            current + steps - len
        },
        0 <= step_from(current, steps, len) < len,
{
    if current + steps < len {
        lemma_small_mod((current + steps) as nat, len as nat);
    } else {
        lemma_mod_sub_multiples_vanish(current + steps, len);
        lemma_small_mod((current + steps - len) as nat, len as nat);
    }
}

/// A step count at which the scan must stop, with no stop before it, is the
/// scan's length.
proof fn lemma_scan_stops_at(support: Seq<bool>, current: int, from: int, stop: int)
    requires
        1 <= from <= stop <= support.len(),
        forall|j: int|
            from <= j < stop ==> !support[#[trigger] step_from(current, j, support.len() as int)],
        stop == support.len() || support[step_from(current, stop, support.len() as int)],
    ensures
        scan_len_from(support, current, from) == stop,
    decreases stop - from,
{
    if from < stop {
        lemma_scan_stops_at(support, current, from + 1, stop);
    }
}

/// What the scan's length is: between one and the number of entries; no entry
/// before the stop is supported; and a stop short of a full turn is at a
/// supported entry.
pub proof fn lemma_scan_len(support: Seq<bool>, current: int)
    requires
        support.len() >= 1,
    ensures
        1 <= scan_len(support, current) <= support.len(),
        forall|j: int|
            1 <= j < scan_len(support, current) ==> !support[#[trigger] step_from(
                current,
                j,
                support.len() as int,
            )],
        scan_len(support, current) < support.len() ==> support[next_index(support, current)],
{
    lemma_scan_len_from(support, current, 1);
}

proof fn lemma_scan_len_from(support: Seq<bool>, current: int, from: int)
    requires
        1 <= from <= support.len(),
    ensures
        from <= scan_len_from(support, current, from) <= support.len(),
        forall|j: int|
            from <= j < scan_len_from(support, current, from) ==> !support[#[trigger] step_from(
                current,
                j,
                support.len() as int,
            )],
        scan_len_from(support, current, from) < support.len() ==> support[step_from(
            current,
            scan_len_from(support, current, from),
            support.len() as int,
        )],
    decreases support.len() - from,
{
    if from >= support.len() || support[step_from(current, from, support.len() as int)] {
    } else {
        lemma_scan_len_from(support, current, from + 1);
    }
}

/// Distinct step counts within one turn reach distinct entries.
proof fn lemma_steps_distinct(current: int, a: int, b: int, len: int)
    requires
        0 <= current < len,
        1 <= a < b <= len,
    ensures
        step_from(current, a, len) != step_from(current, b, len),
{
    lemma_step_from(current, a, len);
    lemma_step_from(current, b, len);
}

/// Every index of the ring is reached from `current` by a step count between
/// one and the length of the ring.
proof fn lemma_step_reaches(current: int, target: int, len: int) -> (steps: int)
    requires
        0 <= current < len,
        0 <= target < len,
    ensures
        1 <= steps <= len,
        step_from(current, steps, len) == target,
        steps == len <==> target == current,
{
    let steps = if target > current {
        target - current
    } else {
        target - current + len
    };
    lemma_step_from(current, steps, len);
    steps
}

/// What a scan reports as passed over: only unsupported entries, none of them
/// twice, and every unsupported entry that it looked at.
pub proof fn lemma_skipped_entries(support: Seq<bool>, current: int)
    requires
        0 <= current < support.len(),
    ensures
        skipped_entries(support, current).no_duplicates(),
        forall|i: int| #[trigger]
            skipped_entries(support, current).contains(i) ==> 0 <= i < support.len()
                && !support[i],
        forall|j: int|
            1 <= j <= scan_len(support, current) && !support[step_from(
                current,
                j,
                support.len() as int,
            )] ==> skipped_entries(support, current).contains(
                #[trigger] step_from(current, j, support.len() as int),
            ),
{
    let n = support.len() as int;
    let skipped = skipped_entries(support, current);
    lemma_scan_len(support, current);
    assert forall|a: int, b: int| 0 <= a < b < skipped.len() implies skipped[a] != skipped[b] by {
        lemma_steps_distinct(current, a + 1, b + 1, n);
    }
    assert forall|i: int| #[trigger] skipped.contains(i) implies 0 <= i < n && !support[i] by {
        let j = choose|j: int| 0 <= j < skipped.len() && skipped[j] == i;
        lemma_step_from(current, j + 1, n);
        assert(i == step_from(current, j + 1, n));
    }
    assert forall|j: int|
        1 <= j <= scan_len(support, current) && !support[step_from(
            current,
            j,
            n,
        )] implies skipped.contains(#[trigger] step_from(current, j, n)) by {
        assert(skipped[j - 1] == step_from(current, j, n));
    }
}

/// When an advance moves. The selection moves exactly when some entry other
/// than the current one is supported, and it moves to a supported entry.
pub proof fn lemma_advance_moves(support: Seq<bool>, current: int)
    requires
        0 <= current < support.len(),
    ensures
        0 <= next_index(support, current) < support.len(),
        next_index(support, current) != current <==> exists|i: int|
            0 <= i < support.len() && i != current && #[trigger] support[i],
        next_index(support, current) != current ==> support[next_index(support, current)],
{
    let n = support.len() as int;
    lemma_scan_len(support, current);
    lemma_step_from(current, scan_len(support, current), n);
    if exists|i: int| 0 <= i < n && i != current && #[trigger] support[i] {
        let i = choose|i: int| 0 <= i < n && i != current && #[trigger] support[i];
        let j = lemma_step_reaches(current, i, n);
        assert(support[step_from(current, j, n)]);
    }
}

/// With every entry supported, an advance moves to the entry that follows and
/// passes over nothing.
pub proof fn lemma_advance_all_supported(support: Seq<bool>, current: int)
    requires
        0 <= current < support.len(),
        forall|i: int| 0 <= i < support.len() ==> support[i],
    ensures
        next_index(support, current) == (current + 1) % (support.len() as int),
        skipped_entries(support, current) == Seq::<int>::empty(),
{
    let n = support.len() as int;
    lemma_step_from(current, 1, n);
    lemma_scan_len(support, current);
    assert(skipped_entries(support, current) =~= Seq::<int>::empty());
}

/// Full circular traversal. With every entry supported, the advance number
/// `k` from the first entry reaches entry `k`, for every `k` below the number
/// of entries, so each entry is visited exactly once in a turn; and as many
/// advances as there are entries lead back to the first entry.
pub proof fn lemma_full_traversal(support: Seq<bool>)
    requires
        support.len() >= 1,
        forall|i: int| 0 <= i < support.len() ==> support[i],
    ensures
        forall|k: nat| k < support.len() ==> #[trigger] advance_times(support, 0, k) == k,
        advance_times(support, 0, support.len()) == 0,
{
    let n = support.len();
    assert forall|k: nat| k < n implies #[trigger] advance_times(support, 0, k) == k by {
        lemma_traversal_prefix(support, k);
    }
    lemma_traversal_prefix(support, (n - 1) as nat);
    lemma_advance_all_supported(support, n - 1);
    lemma_step_from(n - 1, 1, n as int);
}

proof fn lemma_traversal_prefix(support: Seq<bool>, times: nat)
    requires
        times < support.len(),
        forall|i: int| 0 <= i < support.len() ==> support[i],
    ensures
        advance_times(support, 0, times) == times,
    decreases times,
{
    if times > 0 {
        lemma_traversal_prefix(support, (times - 1) as nat);
        lemma_advance_all_supported(support, times - 1);
        lemma_step_from(times - 1, 1, support.len() as int);
    }
}

/// With no entry but the current one supported, an advance leaves the index
/// where it is, and passes over each unsupported entry exactly once: over
/// every other entry, and over the current one too when it is unsupported
/// itself.
pub proof fn lemma_advance_none_other(support: Seq<bool>, current: int)
    requires
        0 <= current < support.len(),
        forall|i: int| 0 <= i < support.len() && i != current ==> !support[i],
    ensures
        next_index(support, current) == current,
        skipped_entries(support, current).no_duplicates(),
        forall|i: int|
            0 <= i < support.len() ==> (#[trigger] skipped_entries(support, current).contains(i)
                <==> !support[i]),
        skipped_entries(support, current).len() == if support[current] {
            support.len() - 1
        } else {
            support.len() as int
        },
{
    let n = support.len() as int;
    let skipped = skipped_entries(support, current);
    lemma_scan_len(support, current);
    lemma_skipped_entries(support, current);
    lemma_step_from(current, scan_len(support, current), n);
    assert forall|i: int| 0 <= i < n && !support[i] implies #[trigger] skipped.contains(i) by {
        let j = lemma_step_reaches(current, i, n);
        assert(skipped.contains(step_from(current, j, n)));
    }
}

} // verus!
