//! The tempo map: an ordered, deduplicated schedule of tempo changes, and the
//! conversion from ticks to elapsed time.
//!
//! Elapsed time is kept exact. It is counted in microsecond-ticks: the sum,
//! over the tempo segments walked, of ticks times microseconds per beat.
//! Dividing by the ticks per beat gives microseconds; dividing further by
//! 1 000 000 gives seconds.

use vstd::arithmetic::div_mod::lemma_div_is_ordered;
use vstd::prelude::*;
use crate::order::{arranged, comes_before, lists, stable_order};

verus! {

/// Microseconds per beat in force where no tempo was set: 120 beats per minute.
pub const DEFAULT_TEMPO: u32 = 500_000;

/// A tempo meta-event placed on the file's time axis.
#[derive(Clone, Copy, Debug, PartialEq, Eq, Structural)]
pub struct TempoChange {
    pub tick: u32,
    pub micros_per_beat: u32,
}

/// Position of the last entry of `changes` at `tick`, if there is one.
pub open spec fn last_change_at(changes: Seq<TempoChange>, tick: int) -> Option<int>
    decreases changes.len(),
{
    if changes.len() == 0 {
        None
    } else if changes.last().tick == tick {
        Some(changes.len() - 1)
    } else {
        last_change_at(changes.drop_last(), tick)
    }
}

/// The tempo that `changes`, met in this order, set at exactly `tick`: the
/// last one wins, and tick 0 falls back to the default.
pub open spec fn tempo_set_at(changes: Seq<TempoChange>, tick: int) -> Option<u32> {
    match last_change_at(changes, tick) {
        Some(i) => Some(changes[i].micros_per_beat),
        None => if tick == 0 {
            Some(DEFAULT_TEMPO)
        } else {
            None
        },
    }
}

/// `map` has some entry at `tick`.
pub open spec fn has_tick(map: Seq<TempoChange>, tick: int) -> bool {
    exists|i: int| 0 <= i < map.len() && (#[trigger] map[i]).tick == tick
}

/// A well-formed tempo map starts at tick 0 and its ticks strictly increase.
pub open spec fn is_tempo_map(map: Seq<TempoChange>) -> bool {
    &&& map.len() > 0
    &&& map[0].tick == 0
    &&& forall|i: int, j: int|
        0 <= i < j < map.len() ==> (#[trigger] map[i]).tick < (#[trigger] map[j]).tick
}

/// `map` is the tempo map of `changes`: well formed, with an entry at every
/// tick that `changes` names, each holding the tempo set there, and no entry
/// elsewhere but for tick 0.
pub open spec fn is_tempo_map_of(map: Seq<TempoChange>, changes: Seq<TempoChange>) -> bool {
    &&& is_tempo_map(map)
    &&& forall|i: int|
        0 <= i < map.len() ==> tempo_set_at(changes, (#[trigger] map[i]).tick as int) == Some(
            map[i].micros_per_beat,
        )
    &&& forall|j: int|
        0 <= j < changes.len() ==> has_tick(map, (#[trigger] changes[j]).tick as int)
}

/// The tempo map of `changes`. There is exactly one; see
/// [`lemma_tempo_map_unique`].
pub open spec fn tempo_map_of(changes: Seq<TempoChange>) -> Seq<TempoChange> {
    choose|map: Seq<TempoChange>| is_tempo_map_of(map, changes)
}

/// Elapsed time at `tick`, in microsecond-ticks: every tempo segment that
/// ends at or before `tick` counts in full, the one that holds `tick` up to
/// `tick`. Before the first entry the default tempo is in force.
pub open spec fn elapsed(map: Seq<TempoChange>, tick: int) -> int
    decreases map.len(),
{
    if map.len() == 0 {
        tick * DEFAULT_TEMPO
    } else {
        let last = map.last();
        if last.tick <= tick {
            elapsed(map.drop_last(), last.tick as int) + (tick - last.tick) * last.micros_per_beat
        } else {
            elapsed(map.drop_last(), tick)
        }
    }
}

/// `entry` is the last of its run of equal ticks among the first `k` entries
/// of `sorted`.
spec fn ends_run(sorted: Seq<TempoChange>, k: int, entry: TempoChange) -> bool {
    exists|j: int|
        0 <= j < k && #[trigger] sorted[j] == entry && (j + 1 < k ==> sorted[j + 1].tick
            != entry.tick)
}

proof fn lemma_last_change_at(changes: Seq<TempoChange>, tick: int, idx: int)
    requires
        0 <= idx < changes.len(),
        changes[idx].tick == tick,
        forall|q: int| idx < q < changes.len() ==> (#[trigger] changes[q]).tick != tick,
    ensures
        last_change_at(changes, tick) == Some(idx),
    decreases changes.len(),
{
    if idx < changes.len() - 1 {
        assert(changes.last() == changes[changes.len() - 1]);
        lemma_last_change_at(changes.drop_last(), tick, idx);
    }
}

proof fn lemma_no_change_at(changes: Seq<TempoChange>, tick: int)
    requires
        forall|q: int| 0 <= q < changes.len() ==> (#[trigger] changes[q]).tick != tick,
    ensures
        last_change_at(changes, tick) is None,
    decreases changes.len(),
{
    if changes.len() > 0 {
        assert(changes.last() == changes[changes.len() - 1]);
        lemma_no_change_at(changes.drop_last(), tick);
    }
}

proof fn lemma_last_change_found(changes: Seq<TempoChange>, tick: int)
    ensures
        last_change_at(changes, tick) matches Some(i) ==> 0 <= i < changes.len()
            && changes[i].tick == tick,
    decreases changes.len(),
{
    if changes.len() > 0 && changes.last().tick != tick {
        lemma_last_change_found(changes.drop_last(), tick);
    }
}

/// Every tick of one tempo map of `changes` is a tick of any other.
proof fn lemma_tick_shared(
    first: Seq<TempoChange>,
    second: Seq<TempoChange>,
    changes: Seq<TempoChange>,
    i: int,
)
    requires
        is_tempo_map_of(first, changes),
        is_tempo_map_of(second, changes),
        0 <= i < first.len(),
    ensures
        has_tick(second, first[i].tick as int),
{
    let tick = first[i].tick as int;
    lemma_last_change_found(changes, tick);
    match last_change_at(changes, tick) {
        Some(idx) => {
            assert(has_tick(second, changes[idx].tick as int));
        },
        None => {
            assert(second[0].tick == tick);
        },
    }
}

proof fn lemma_ticks_agree(
    first: Seq<TempoChange>,
    second: Seq<TempoChange>,
    changes: Seq<TempoChange>,
    i: int,
)
    requires
        is_tempo_map_of(first, changes),
        is_tempo_map_of(second, changes),
        0 <= i < first.len(),
    ensures
        i < second.len(),
        first[i].tick == second[i].tick,
    decreases i,
{
    assert forall|k: int| 0 <= k < i implies k < second.len() && (#[trigger] first[k]).tick
        == second[k].tick by {
        lemma_ticks_agree(first, second, changes, k);
    }
    lemma_tick_shared(first, second, changes, i);
    let j = choose|j: int| 0 <= j < second.len() && (#[trigger] second[j]).tick == first[i].tick;
    if j < i {
        assert(first[j].tick == second[j].tick);
        assert(first[j].tick < first[i].tick);
    }
    if j > i {
        assert(second[i].tick < second[j].tick);
    }
    lemma_tick_shared(second, first, changes, i);
    let m = choose|m: int| 0 <= m < first.len() && (#[trigger] first[m]).tick == second[i].tick;
    if m < i {
        assert(first[m].tick == second[m].tick);
        assert(second[m].tick < second[i].tick);
    }
    if m > i {
        assert(first[i].tick < first[m].tick);
    }
}

/// A list of tempo changes has only one tempo map.
pub proof fn lemma_tempo_map_unique(
    first: Seq<TempoChange>,
    second: Seq<TempoChange>,
    changes: Seq<TempoChange>,
)
    requires
        is_tempo_map_of(first, changes),
        is_tempo_map_of(second, changes),
    ensures
        first == second,
{
    lemma_ticks_agree(first, second, changes, first.len() - 1);
    lemma_ticks_agree(second, first, changes, second.len() - 1);
    assert forall|i: int| 0 <= i < first.len() implies first[i] == second[i] by {
        lemma_ticks_agree(first, second, changes, i);
        assert(tempo_set_at(changes, first[i].tick as int) == Some(first[i].micros_per_beat));
        assert(tempo_set_at(changes, second[i].tick as int) == Some(second[i].micros_per_beat));
    }
    assert(first =~= second);
}

/// Elapsed time never runs backwards: a later tick has at least the elapsed
/// time of an earlier one, whatever the tempo changes in between.
pub proof fn lemma_elapsed_monotonic(map: Seq<TempoChange>, t1: int, t2: int)
    requires
        0 <= t1 <= t2,
    ensures
        elapsed(map, t1) <= elapsed(map, t2),
    decreases map.len(),
{
    if map.len() == 0 {
        assert(t1 * DEFAULT_TEMPO <= t2 * DEFAULT_TEMPO);
    } else {
        let last = map.last();
        let rest = map.drop_last();
        let m = last.micros_per_beat as int;
        let lt = last.tick as int;
        if lt <= t1 {
            assert((t1 - lt) * m <= (t2 - lt) * m) by (nonlinear_arith)
                requires
                    lt <= t1 <= t2,
                    0 <= m,
            ;
        } else if lt <= t2 {
            lemma_elapsed_monotonic(rest, t1, lt);
            assert(0 <= (t2 - lt) * m) by (nonlinear_arith)
                requires
                    lt <= t2,
                    0 <= m,
            ;
        } else {
            lemma_elapsed_monotonic(rest, t1, t2);
        }
    }
}

/// Conversion is monotonic along any ascending run of three ticks.
pub proof fn lemma_conversion_monotonic(map: Seq<TempoChange>, t1: u32, t2: u32, t3: u32)
    requires
        t1 <= t2 <= t3,
    ensures
        elapsed(map, t1 as int) <= elapsed(map, t2 as int) <= elapsed(map, t3 as int),
{
    lemma_elapsed_monotonic(map, t1 as int, t2 as int);
    lemma_elapsed_monotonic(map, t2 as int, t3 as int);
}

/// In whole microseconds, too, conversion is monotonic: dividing by the
/// ticks per beat keeps the order of elapsed times.
pub proof fn lemma_micros_monotonic(
    map: Seq<TempoChange>,
    t1: u32,
    t2: u32,
    t3: u32,
    ticks_per_beat: u16,
)
    requires
        t1 <= t2 <= t3,
        ticks_per_beat > 0,
    ensures
        elapsed(map, t1 as int) / (ticks_per_beat as int) <= elapsed(map, t2 as int) / (
        ticks_per_beat as int) <= elapsed(map, t3 as int) / (ticks_per_beat as int),
{
    lemma_conversion_monotonic(map, t1, t2, t3);
    lemma_div_is_ordered(elapsed(map, t1 as int), elapsed(map, t2 as int), ticks_per_beat as int);
    lemma_div_is_ordered(elapsed(map, t2 as int), elapsed(map, t3 as int), ticks_per_beat as int);
}

/// Elapsed time lies between zero and the tick count at the slowest tempo
/// that fits the field.
pub proof fn lemma_elapsed_bounds(map: Seq<TempoChange>, tick: int)
    requires
        0 <= tick,
    ensures
        0 <= elapsed(map, tick) <= tick * u32::MAX,
    decreases map.len(),
{
    if map.len() == 0 {
        assert(0 <= tick * DEFAULT_TEMPO <= tick * u32::MAX) by (nonlinear_arith)
            requires
                0 <= tick,
                0 <= DEFAULT_TEMPO <= u32::MAX,
        ;
    } else {
        let last = map.last();
        let rest = map.drop_last();
        let m = last.micros_per_beat as int;
        let lt = last.tick as int;
        if lt <= tick {
            lemma_elapsed_bounds(rest, lt);
            assert(0 <= (tick - lt) * m <= (tick - lt) * u32::MAX) by (nonlinear_arith)
                requires
                    lt <= tick,
                    0 <= m <= u32::MAX,
            ;
            assert(lt * u32::MAX + (tick - lt) * u32::MAX == tick * u32::MAX) by (nonlinear_arith);
        } else {
            lemma_elapsed_bounds(rest, tick);
        }
    }
}

/// From the tick of its last entry on, a map's elapsed time grows at the
/// tempo of that entry.
proof fn lemma_elapsed_tail(head: Seq<TempoChange>, from: int, to: int)
    requires
        from <= to,
        head.len() == 0 ==> from == 0,
        head.len() > 0 ==> head.last().tick == from,
    ensures
        elapsed(head, to) == elapsed(head, from) + (to - from) * (if head.len() == 0 {
            DEFAULT_TEMPO
        } else {
            head.last().micros_per_beat
        }),
{
    if head.len() > 0 {
        let m = head.last().micros_per_beat as int;
        assert((from - from) * m == 0) by (nonlinear_arith);
    } else {
        assert(from * DEFAULT_TEMPO == 0) by (nonlinear_arith)
            requires
                from == 0,
        ;
    }
}

/// Entries that lie after `tick` do not count.
proof fn lemma_elapsed_prefix(map: Seq<TempoChange>, i: int, tick: int)
    requires
        0 <= i <= map.len(),
        forall|k: int| i <= k < map.len() ==> (#[trigger] map[k]).tick > tick,
    ensures
        elapsed(map, tick) == elapsed(map.take(i), tick),
    decreases map.len() - i,
{
    if i == map.len() {
        assert(map.take(i) =~= map);
    } else {
        assert(map.last() == map[map.len() - 1]);
        lemma_elapsed_prefix(map.drop_last(), i, tick);
        assert(map.drop_last().take(i) =~= map.take(i));
    }
}

/// Ticks never decrease along `sorted`.
spec fn ticks_ascend(sorted: Seq<TempoChange>) -> bool {
    forall|a: int, b: int|
        0 <= a < b < sorted.len() ==> (#[trigger] sorted[a]).tick <= (#[trigger] sorted[b]).tick
}

/// `unique` holds the first `k` entries of `sorted` with every run of equal
/// ticks collapsed to its last entry.
spec fn collapses(unique: Seq<TempoChange>, sorted: Seq<TempoChange>, k: int) -> bool {
    &&& forall|a: int, b: int|
        0 <= a < b < unique.len() ==> (#[trigger] unique[a]).tick < (#[trigger] unique[b]).tick
    &&& k == 0 ==> unique.len() == 0
    &&& k > 0 ==> unique.len() > 0 && unique.last() == sorted[k - 1]
    &&& forall|j: int| 0 <= j < k ==> has_tick(unique, (#[trigger] sorted[j]).tick as int)
    &&& forall|a: int| 0 <= a < unique.len() ==> ends_run(sorted, k, #[trigger] unique[a])
}

/// `unique` with one more entry taken in: it replaces the last entry where
/// that has the same tick, and is appended otherwise.
spec fn with_next(unique: Seq<TempoChange>, next: TempoChange) -> Seq<TempoChange> {
    if unique.len() > 0 && unique.last().tick == next.tick {
        unique.update(unique.len() - 1, next)
    } else {
        unique.push(next)
    }
}

/// Taking in the next sorted entry keeps the runs collapsed.
proof fn lemma_collapse_step(before: Seq<TempoChange>, sorted: Seq<TempoChange>, k: int)
    requires
        0 <= k < sorted.len(),
        ticks_ascend(sorted),
        collapses(before, sorted, k),
    ensures
        collapses(with_next(before, sorted[k]), sorted, k + 1),
{
    let next = sorted[k];
    let after = with_next(before, next);
    let last = after.len() - 1;
    assert(after[last] == next);
    assert forall|a: int| 0 <= a < last implies after[a] == before[a] && (
    #[trigger] before[a]).tick < next.tick by {
        assert(before[a].tick <= before.last().tick);
        assert(sorted[k - 1].tick <= sorted[k].tick);
    }
    assert forall|j: int| 0 <= j < k + 1 implies has_tick(
        after,
        (#[trigger] sorted[j]).tick as int,
    ) by {
        if j < k {
            assert(has_tick(before, sorted[j].tick as int));
            let a = choose|a: int|
                0 <= a < before.len() && (#[trigger] before[a]).tick == sorted[j].tick;
            if a < last {
                assert(after[a].tick == sorted[j].tick);
            } else {
                assert(after[last].tick == sorted[j].tick);
            }
        } else {
            assert(after[last].tick == sorted[j].tick);
        }
    }
    assert forall|a: int| 0 <= a < after.len() implies ends_run(sorted, k + 1, #[trigger] after[a]) by {
        if a == last {
            assert(sorted[k] == after[a]);
        } else {
            assert(ends_run(sorted, k, before[a]));
            let j = choose|j: int|
                0 <= j < k && #[trigger] sorted[j] == before[a] && (j + 1 < k ==> sorted[j
                    + 1].tick != before[a].tick);
            assert(sorted[j] == after[a]);
        }
    }
}

/// Collapses the tempo changes gathered from all tracks into the tempo map:
/// ordered by tick, the last change met at a tick replacing earlier ones, and
/// the default tempo at tick 0 where the input sets none there.
pub fn build_tempo_map(changes: &Vec<TempoChange>) -> (map: Vec<TempoChange>)
    ensures
        is_tempo_map_of(map@, changes@),
        map@ == tempo_map_of(changes@),
{
    let n: usize = changes.len();
    let mut keys: Vec<u64> = Vec::new();
    let mut i: usize = 0;
    while i < n
        invariant
            i <= n,
            n == changes.len(),
            keys.len() == i,
            forall|k: int| 0 <= k < i ==> keys@[k] == changes@[k].tick,
        decreases n - i,
    {
        keys.push(changes[i].tick as u64);
        i = i + 1;
    }
    let order = stable_order(&keys);
    let ghost sorted: Seq<TempoChange> = arranged(changes@, order@);
    proof {
        assert forall|a: int, b: int| 0 <= a < b < n implies (#[trigger] sorted[a]).tick <= (
        #[trigger] sorted[b]).tick by {
            assert(comes_before(keys@, order@[a] as int, order@[b] as int));
        }
    }
    let mut unique: Vec<TempoChange> = Vec::new();
    let mut k: usize = 0;
    while k < n
        invariant
            k <= n,
            n == changes.len(),
            order.len() == n,
            sorted.len() == n,
            forall|j: int| 0 <= j < n ==> 0 <= #[trigger] order@[j] < n,
            forall|j: int| 0 <= j < n ==> #[trigger] sorted[j] == changes@[order@[j] as int],
            ticks_ascend(sorted),
            collapses(unique@, sorted, k as int),
        decreases n - k,
    {
        let tc: TempoChange = changes[order[k]];
        let len: usize = unique.len();
        let ghost before = unique@;
        if len > 0 && unique[len - 1].tick == tc.tick {
            unique.set(len - 1, tc);
        } else {
            unique.push(tc);
        }
        proof {
            assert(unique@ =~= with_next(before, sorted[k as int]));
            lemma_collapse_step(before, sorted, k as int);
        }
        k = k + 1;
    }
    let ghost collapsed = unique@;
    proof {
        assert forall|a: int| 0 <= a < collapsed.len() implies tempo_set_at(
            changes@,
            (#[trigger] collapsed[a]).tick as int,
        ) == Some(collapsed[a].micros_per_beat) by {
            assert(ends_run(sorted, n as int, collapsed[a]));
            let j = choose|j: int|
                0 <= j < n && #[trigger] sorted[j] == collapsed[a] && (j + 1 < n ==> sorted[j
                    + 1].tick != collapsed[a].tick);
            let idx = order@[j] as int;
            let tick = collapsed[a].tick as int;
            assert forall|q: int| idx < q < changes@.len() implies (#[trigger] changes@[q]).tick
                != tick by {
                if changes@[q].tick == tick {
                    assert(lists(order@, q));
                    let m = choose|m: int| 0 <= m < order@.len() && #[trigger] order@[m] == q;
                    assert(sorted[m] == changes@[q]);
                    if m > j {
                        assert(sorted[j].tick <= sorted[j + 1].tick);
                        if m > j + 1 {
                            assert(sorted[j + 1].tick <= sorted[m].tick);
                        }
                    } else if m < j {
                        assert(comes_before(keys@, order@[m] as int, order@[j] as int));
                    }
                }
            }
            lemma_last_change_at(changes@, tick, idx);
        }
        assert forall|j: int| 0 <= j < changes@.len() implies has_tick(
            collapsed,
            (#[trigger] changes@[j]).tick as int,
        ) by {
            assert(lists(order@, j));
            let m = choose|m: int| 0 <= m < order@.len() && #[trigger] order@[m] == j;
            assert(sorted[m] == changes@[j]);
        }
    }
    if unique.len() == 0 || unique[0].tick > 0 {
        unique.insert(0, TempoChange { tick: 0, micros_per_beat: DEFAULT_TEMPO });
        proof {
            assert forall|q: int| 0 <= q < changes@.len() implies (#[trigger] changes@[q]).tick
                != 0 by {
                assert(has_tick(collapsed, changes@[q].tick as int));
                let a = choose|a: int|
                    0 <= a < collapsed.len() && (#[trigger] collapsed[a]).tick == changes@[q].tick;
                if a > 0 {
                    assert(collapsed[0].tick < collapsed[a].tick);
                }
            }
            lemma_no_change_at(changes@, 0);
            assert forall|i: int, j: int| 0 <= i < j < unique@.len() implies (
            #[trigger] unique@[i]).tick < (#[trigger] unique@[j]).tick by {
                if i == 0 {
                    if j > 1 {
                        assert(collapsed[0].tick < collapsed[j - 1].tick);
                    }
                } else {
                    assert(collapsed[i - 1].tick < collapsed[j - 1].tick);
                }
            }
            assert forall|i: int| 0 <= i < unique@.len() implies tempo_set_at(
                changes@,
                (#[trigger] unique@[i]).tick as int,
            ) == Some(unique@[i].micros_per_beat) by {
                if i > 0 {
                    assert(unique@[i] == collapsed[i - 1]);
                }
            }
            assert forall|j: int| 0 <= j < changes@.len() implies has_tick(
                unique@,
                (#[trigger] changes@[j]).tick as int,
            ) by {
                assert(has_tick(collapsed, changes@[j].tick as int));
                let a = choose|a: int|
                    0 <= a < collapsed.len() && (#[trigger] collapsed[a]).tick == changes@[j].tick;
                assert(unique@[a + 1] == collapsed[a]);
            }
        }
    }
    proof {
        assert(is_tempo_map_of(unique@, changes@));
        lemma_tempo_map_unique(unique@, tempo_map_of(changes@), changes@);
    }
    unique
}

/// A tick count times a tempo, both of 32 bits, fits 64 bits.
proof fn lemma_product_fits(ticks: int, tempo: int)
    by (nonlinear_arith)
    requires
        0 <= ticks <= u32::MAX,
        0 <= tempo <= u32::MAX,
    ensures
        0 <= ticks * tempo <= u32::MAX * u32::MAX,
        ticks * tempo <= u64::MAX,
{
}

/// Converts a tick to elapsed time in microsecond-ticks by walking the tempo
/// segments in order.
pub fn tick_to_time(map: &Vec<TempoChange>, tick: u32) -> (time: u64)
    requires
        is_tempo_map(map@),
    ensures
        time == elapsed(map@, tick as int),
{
    let mut time: u64 = 0;
    let mut last_tick: u32 = 0;
    let mut last_tempo: u32 = DEFAULT_TEMPO;
    let mut i: usize = 0;
    while i < map.len() && map[i].tick <= tick
        invariant
            i <= map.len(),
            is_tempo_map(map@),
            last_tick <= tick,
            time == elapsed(map@.take(i as int), last_tick as int),
            i == 0 ==> last_tick == 0 && last_tempo == DEFAULT_TEMPO,
            i > 0 ==> last_tick == map@[i - 1].tick && last_tempo == map@[i - 1].micros_per_beat,
        decreases map.len() - i,
    {
        let entry: TempoChange = map[i];
        proof {
            let head = map@.take(i as int);
            let next = map@.take(i + 1);
            assert(next.drop_last() =~= head);
            assert(next.last() == entry);
            if i > 0 {
                assert(head.last() == map@[i - 1]);
                assert(map@[i - 1].tick < map@[i as int].tick);
            }
            lemma_elapsed_tail(head, last_tick as int, entry.tick as int);
            lemma_elapsed_tail(next, entry.tick as int, entry.tick as int);
            assert(elapsed(next, entry.tick as int) == elapsed(head, entry.tick as int));
            lemma_elapsed_bounds(next, entry.tick as int);
            lemma_product_fits(entry.tick as int, u32::MAX as int);
            lemma_product_fits(entry.tick - last_tick, last_tempo as int);
        }
        let delta: u64 = (entry.tick - last_tick) as u64;
        time = time + delta * (last_tempo as u64);
        last_tick = entry.tick;
        last_tempo = entry.micros_per_beat;
        i = i + 1;
    }
    proof {
        let head = map@.take(i as int);
        if i > 0 {
            assert(head.last() == map@[i - 1]);
        }
        lemma_elapsed_tail(head, last_tick as int, tick as int);
        assert forall|k: int| i <= k < map@.len() implies (#[trigger] map@[k]).tick > tick by {
            if k > i {
                assert(map@[i as int].tick < map@[k].tick);
            }
        }
        lemma_elapsed_prefix(map@, i as int, tick as int);
        lemma_elapsed_bounds(map@, tick as int);
        lemma_product_fits(tick as int, u32::MAX as int);
        lemma_product_fits(tick - last_tick, last_tempo as int);
    }
    let delta: u64 = (tick - last_tick) as u64;
    time + delta * (last_tempo as u64)
}

/// Converts elapsed time from microsecond-ticks to whole microseconds,
/// rounding down.
pub fn time_to_micros(time: u64, ticks_per_beat: u16) -> (micros: u64)
    requires
        ticks_per_beat > 0,
    ensures
        micros == time as int / ticks_per_beat as int,
{
    time / (ticks_per_beat as u64)
}

} // verus!
