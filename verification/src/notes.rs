//! Reconstruction of timed notes from the note-on and note-off events of the
//! tracks.
//!
//! Within a track, a closing event (a note-off, or a note-on of velocity 0)
//! ends the note that the nearest earlier event on the same channel and key
//! opened, if that event was an opening note-on. Anything else is dropped: a
//! closing event with nothing open, and a note-on that is never closed.

use std::collections::HashMap;
use vstd::prelude::*;
use vstd::std_specs::hash::group_hash_axioms;
use crate::order::{arranged, comes_before, is_stable_order, stable_order, stable_order_of};
use crate::tempo::{
    elapsed, is_tempo_map, lemma_elapsed_bounds, lemma_elapsed_monotonic, tick_to_time,
    TempoChange,
};
use crate::track::{
    all_ticks_fit, lemma_tick_after_monotonic, tick_after, ticks_fit, track_seqs, EventKind,
    MidiEvent, NoteKind, TrackEvent,
};

verus! {

/// The event is a note-on or note-off on this channel and key.
pub open spec fn touches(kind: EventKind, channel: u8, key: u8) -> bool {
    match kind {
        EventKind::NoteOn { channel: c, key: k, vel: _ } => c == channel && k == key,
        EventKind::NoteOff { channel: c, key: k } => c == channel && k == key,
        _ => false,
    }
}

/// The event opens a note: a note-on with a velocity above 0.
pub open spec fn opens(kind: EventKind) -> bool {
    match kind {
        EventKind::NoteOn { channel: _, key: _, vel } => vel > 0,
        _ => false,
    }
}

/// The event closes a note: a note-off, or a note-on with velocity 0.
pub open spec fn closes(kind: EventKind) -> bool {
    match kind {
        EventKind::NoteOn { channel: _, key: _, vel } => vel == 0,
        EventKind::NoteOff { channel: _, key: _ } => true,
        _ => false,
    }
}

/// Position of the nearest event before position `j` that touches the
/// channel and key.
pub open spec fn last_touch(events: Seq<TrackEvent>, j: int, channel: u8, key: u8) -> Option<int>
    decreases j,
{
    if j <= 0 {
        None
    } else if touches(events[j - 1].kind, channel, key) {
        Some(j - 1)
    } else {
        last_touch(events, j - 1, channel, key)
    }
}

/// Position of the note-on that is open on the channel and key just before
/// position `j`, if one is.
pub open spec fn open_note(events: Seq<TrackEvent>, j: int, channel: u8, key: u8) -> Option<int> {
    match last_touch(events, j, channel, key) {
        Some(i) => if opens(events[i].kind) {
            Some(i)
        } else {
            None
        },
        None => None,
    }
}

/// Position of the note-on that the event at position `j` closes, if it
/// closes one.
pub open spec fn closed_by(events: Seq<TrackEvent>, j: int) -> Option<int> {
    match events[j].kind {
        EventKind::NoteOn { channel, key, vel } => if vel == 0 {
            open_note(events, j, channel, key)
        } else {
            None
        },
        EventKind::NoteOff { channel, key } => open_note(events, j, channel, key),
        _ => None,
    }
}

/// Channel of a note event.
pub open spec fn channel_of(kind: EventKind) -> u8 {
    match kind {
        EventKind::NoteOn { channel, key: _, vel: _ } => channel,
        EventKind::NoteOff { channel, key: _ } => channel,
        _ => 0,
    }
}

/// Key of a note event.
pub open spec fn key_of(kind: EventKind) -> u8 {
    match kind {
        EventKind::NoteOn { channel: _, key, vel: _ } => key,
        EventKind::NoteOff { channel: _, key } => key,
        _ => 0,
    }
}

/// Velocity of a note-on.
pub open spec fn velocity_of(kind: EventKind) -> u8 {
    match kind {
        EventKind::NoteOn { channel: _, key: _, vel } => vel,
        _ => 0,
    }
}

/// Elapsed time at the tick of the event at position `i`.
pub open spec fn time_of(map: Seq<TempoChange>, events: Seq<TrackEvent>, i: int) -> int {
    elapsed(map, tick_after(events, i + 1))
}

/// The two events of the note that opens at position `i` and closes at `j`.
pub open spec fn note_pair(
    map: Seq<TempoChange>,
    events: Seq<TrackEvent>,
    track: usize,
    i: int,
    j: int,
) -> Seq<MidiEvent> {
    let start = time_of(map, events, i);
    let end = time_of(map, events, j);
    seq![
        MidiEvent {
            time: start as u64,
            kind: NoteKind::NoteOn,
            note: key_of(events[i].kind),
            channel: channel_of(events[i].kind),
            track,
            velocity: velocity_of(events[i].kind),
            duration: (end - start) as u64,
            end: end as u64,
        },
        MidiEvent {
            time: end as u64,
            kind: NoteKind::NoteOff,
            note: key_of(events[i].kind),
            channel: channel_of(events[i].kind),
            track,
            velocity: 0,
            duration: 0,
            end: end as u64,
        },
    ]
}

/// What the event at position `j` emits: the pair of the note it closes, or
/// nothing.
pub open spec fn emitted_at(
    map: Seq<TempoChange>,
    events: Seq<TrackEvent>,
    track: usize,
    j: int,
) -> Seq<MidiEvent> {
    match closed_by(events, j) {
        Some(i) => note_pair(map, events, track, i, j),
        None => Seq::empty(),
    }
}

/// The events that the first `k` events of a track emit, in emission order.
pub open spec fn track_notes(
    map: Seq<TempoChange>,
    events: Seq<TrackEvent>,
    track: usize,
    k: int,
) -> Seq<MidiEvent>
    decreases k,
{
    if k <= 0 {
        Seq::empty()
    } else {
        track_notes(map, events, track, k - 1) + emitted_at(map, events, track, k - 1)
    }
}

/// The events that the first `t` tracks emit: track by track, each in its
/// emission order.
pub open spec fn emitted_notes(
    map: Seq<TempoChange>,
    tracks: Seq<Seq<TrackEvent>>,
    t: int,
) -> Seq<MidiEvent>
    decreases t,
{
    if t <= 0 {
        Seq::empty()
    } else {
        emitted_notes(map, tracks, t - 1) + track_notes(
            map,
            tracks[t - 1],
            (t - 1) as usize,
            tracks[t - 1].len() as int,
        )
    }
}

/// The start times of a list of events.
pub open spec fn event_times(events: Seq<MidiEvent>) -> Seq<u64> {
    Seq::new(events.len(), |i: int| events[i].time)
}

/// `events` by ascending time; events of equal time keep their order.
pub open spec fn in_time_order(events: Seq<MidiEvent>) -> Seq<MidiEvent> {
    arranged(events, stable_order_of(event_times(events)))
}

/// The order of the timeline is well defined: the emitted events have a
/// stable order by time.
pub open spec fn timeline_ordered(map: Seq<TempoChange>, tracks: Seq<Seq<TrackEvent>>) -> bool {
    let times = event_times(emitted_notes(map, tracks, tracks.len() as int));
    is_stable_order(stable_order_of(times), times)
}

/// The note timeline of a file: everything its tracks emit, by ascending
/// time, ties in emission order.
pub open spec fn note_timeline(map: Seq<TempoChange>, tracks: Seq<Seq<TrackEvent>>) -> Seq<
    MidiEvent,
> {
    in_time_order(emitted_notes(map, tracks, tracks.len() as int))
}

/// The two events of a note agree on note, channel, track and end; the
/// first is a note-on that lasts from its time to the end, the second a
/// note-off at the end with velocity 0 and duration 0.
pub proof fn lemma_note_pair_shape(
    map: Seq<TempoChange>,
    events: Seq<TrackEvent>,
    track: usize,
    i: int,
    j: int,
)
    requires
        0 <= i <= j < events.len(),
        ticks_fit(events),
    ensures
        ({
            let pair = note_pair(map, events, track, i, j);
            &&& pair.len() == 2
            &&& pair[0].kind == NoteKind::NoteOn
            &&& pair[1].kind == NoteKind::NoteOff
            &&& pair[0].note == pair[1].note
            &&& pair[0].channel == pair[1].channel
            &&& pair[0].track == pair[1].track
            &&& pair[0].end == pair[1].end
            &&& pair[0].time + pair[0].duration == pair[0].end
            &&& pair[1].time == pair[1].end
            &&& pair[1].velocity == 0
            &&& pair[1].duration == 0
        }),
{
    lemma_tick_after_monotonic(events, i + 1, j + 1);
    lemma_tick_after_monotonic(events, j + 1, events.len() as int);
    lemma_elapsed_monotonic(map, tick_after(events, i + 1), tick_after(events, j + 1));
    lemma_elapsed_bounds(map, tick_after(events, i + 1));
    lemma_elapsed_bounds(map, tick_after(events, j + 1));
    assert(tick_after(events, j + 1) * u32::MAX <= u32::MAX * u32::MAX) by (nonlinear_arith)
        requires
            0 <= tick_after(events, j + 1) <= u32::MAX,
    ;
}

/// A timeline in time order is sorted: no event comes before one of an
/// earlier time. It holds the events given, rearranged.
pub proof fn lemma_time_order_sorted(events: Seq<MidiEvent>)
    requires
        is_stable_order(stable_order_of(event_times(events)), event_times(events)),
    ensures
        in_time_order(events).len() == events.len(),
        forall|a: int, b: int|
            0 <= a < b < events.len() ==> (#[trigger] in_time_order(events)[a]).time <= (
            #[trigger] in_time_order(events)[b]).time,
{
    let times = event_times(events);
    let order = stable_order_of(times);
    assert forall|a: int, b: int| 0 <= a < b < events.len() implies (#[trigger] in_time_order(
        events,
    )[a]).time <= (#[trigger] in_time_order(events)[b]).time by {
        assert(comes_before(times, order[a] as int, order[b] as int));
    }
}

/// The nearest earlier touch lies before `j` and touches the channel and key.
pub proof fn lemma_last_touch(events: Seq<TrackEvent>, j: int, channel: u8, key: u8)
    ensures
        match last_touch(events, j, channel, key) {
            Some(i) => 0 <= i < j && touches(events[i].kind, channel, key) && forall|m: int|
                i < m < j ==> !touches(#[trigger] events[m].kind, channel, key),
            None => forall|m: int| 0 <= m < j ==> !touches(#[trigger] events[m].kind, channel, key),
        },
    decreases j,
{
    if j > 0 && !touches(events[j - 1].kind, channel, key) {
        lemma_last_touch(events, j - 1, channel, key);
    }
}

/// Pairing, stated directly: the event at `j` closes the note-on at `i`
/// exactly when `i` lies before `j`, the event at `i` opens a note, the event
/// at `j` closes one on the same channel and key, and no event between the
/// two touches that channel and key.
pub proof fn lemma_pairing(events: Seq<TrackEvent>, i: int, j: int)
    requires
        0 <= j < events.len(),
    ensures
        closed_by(events, j) == Some(i) <==> {
            &&& 0 <= i < j
            &&& opens(events[i].kind)
            &&& closes(events[j].kind)
            &&& touches(events[j].kind, channel_of(events[i].kind), key_of(events[i].kind))
            &&& forall|m: int|
                i < m < j ==> !touches(
                    #[trigger] events[m].kind,
                    channel_of(events[i].kind),
                    key_of(events[i].kind),
                )
        },
{
    let kind = events[j].kind;
    if closes(kind) {
        let channel = channel_of(kind);
        let key = key_of(kind);
        lemma_last_touch(events, j, channel, key);
        assert(closed_by(events, j) == open_note(events, j, channel, key));
        let opener = events[i].kind;
        if 0 <= i < j && opens(opener) && touches(kind, channel_of(opener), key_of(opener)) {
            assert(touches(events[i].kind, channel, key));
        }
    }
}

/// A note-on that no later event on its channel and key follows is never
/// closed, so no event is emitted for it.
pub proof fn lemma_dangling_note_on(events: Seq<TrackEvent>, i: int, j: int)
    requires
        0 <= i < events.len(),
        0 <= j < events.len(),
        opens(events[i].kind),
        forall|m: int|
            i < m < events.len() ==> !touches(
                #[trigger] events[m].kind,
                channel_of(events[i].kind),
                key_of(events[i].kind),
            ),
    ensures
        closed_by(events, j) != Some(i),
{
    lemma_pairing(events, i, j);
}

/// The slot of a channel and key in the table of open notes.
pub open spec fn slot(channel: u8, key: u8) -> u16 {
    (channel * 256 + key) as u16
}

fn slot_of(channel: u8, key: u8) -> (s: u16)
    ensures
        s == slot(channel, key),
{
    (channel as u16) * 256 + (key as u16)
}

/// The table holds, for each channel and key, the note-on open before
/// position `k` with its tick and velocity, and nothing else.
spec fn tracks_open_notes(
    active: Map<u16, (u32, u8)>,
    events: Seq<TrackEvent>,
    k: int,
) -> bool {
    forall|channel: u8, key: u8|
        match #[trigger] open_note(events, k, channel, key) {
            Some(i) => active.contains_key(slot(channel, key)) && active[slot(channel, key)] == (
                tick_after(events, i + 1) as u32,
                velocity_of(events[i].kind),
            ),
            None => !active.contains_key(slot(channel, key)),
        }
}

/// Appends to `out` the events that one track emits, in emission order.
pub fn collect_track_notes(
    map: &Vec<TempoChange>,
    events: &Vec<TrackEvent>,
    track: usize,
    out: &mut Vec<MidiEvent>,
)
    requires
        is_tempo_map(map@),
        ticks_fit(events@),
    ensures
        final(out)@ == old(out)@ + track_notes(map@, events@, track, events@.len() as int),
{
    broadcast use group_hash_axioms;

    let mut active: HashMap<u16, (u32, u8)> = HashMap::new();
    let mut current_tick: u32 = 0;
    let mut k: usize = 0;
    while k < events.len()
        invariant
            k <= events.len(),
            is_tempo_map(map@),
            ticks_fit(events@),
            current_tick == tick_after(events@, k as int),
            tracks_open_notes(active@, events@, k as int),
            out@ == old(out)@ + track_notes(map@, events@, track, k as int),
        decreases events.len() - k,
    {
        proof {
            lemma_tick_after_monotonic(events@, k + 1, events@.len() as int);
        }
        current_tick = current_tick + events[k].delta;
        let ghost before = active@;
        let mut closing: Option<u16> = None;
        match &events[k].kind {
            EventKind::NoteOn { channel, key, vel } => {
                if *vel > 0 {
                    active.insert(slot_of(*channel, *key), (current_tick, *vel));
                } else {
                    closing = Some(slot_of(*channel, *key));
                }
            },
            EventKind::NoteOff { channel, key } => {
                closing = Some(slot_of(*channel, *key));
            },
            _ => {},
        }
        let ghost kind = events@[k as int].kind;
        let ghost mut emitted: Seq<MidiEvent> = Seq::empty();
        if let Some(s) = closing {
            proof {
                assert(s == slot(channel_of(kind), key_of(kind)));
                assert(closed_by(events@, k as int) == open_note(
                    events@,
                    k as int,
                    channel_of(kind),
                    key_of(kind),
                ));
            }
            if let Some((start_tick, start_vel)) = active.remove(&s) {
                let ghost i = open_note(events@, k as int, channel_of(kind), key_of(kind))->0;
                proof {
                    lemma_last_touch(events@, k as int, channel_of(kind), key_of(kind));
                    lemma_tick_after_monotonic(events@, i + 1, k + 1);
                    lemma_elapsed_monotonic(
                        map@,
                        tick_after(events@, i + 1),
                        tick_after(events@, k + 1),
                    );
                }
                let start_time: u64 = tick_to_time(map, start_tick);
                let end_time: u64 = tick_to_time(map, current_tick);
                let note: u8 = (s % 256) as u8;
                let channel: u8 = (s / 256) as u8;
                out.push(
                    MidiEvent {
                        time: start_time,
                        kind: NoteKind::NoteOn,
                        note,
                        channel,
                        track,
                        velocity: start_vel,
                        duration: end_time - start_time,
                        end: end_time,
                    },
                );
                out.push(
                    MidiEvent {
                        time: end_time,
                        kind: NoteKind::NoteOff,
                        note,
                        channel,
                        track,
                        velocity: 0,
                        duration: 0,
                        end: end_time,
                    },
                );
                proof {
                    emitted = note_pair(map@, events@, track, i, k as int);
                    assert(emitted =~= emitted_at(map@, events@, track, k as int));
                }
            }
        }
        proof {
            assert(emitted =~= emitted_at(map@, events@, track, k as int));
            assert(out@ =~= old(out)@ + track_notes(map@, events@, track, k + 1));
            assert forall|channel: u8, key: u8|
                match #[trigger] open_note(events@, k + 1, channel, key) {
                    Some(i) => active@.contains_key(slot(channel, key)) && active@[slot(
                        channel,
                        key,
                    )] == (tick_after(events@, i + 1) as u32, velocity_of(events@[i].kind)),
                    None => !active@.contains_key(slot(channel, key)),
                } by {
                let _ = open_note(events@, k as int, channel, key);
                if touches(kind, channel, key) {
                    assert(channel == channel_of(kind) && key == key_of(kind));
                } else {
                    assert(last_touch(events@, k + 1, channel, key) == last_touch(
                        events@,
                        k as int,
                        channel,
                        key,
                    ));
                    if channel_of(kind) != channel || key_of(kind) != key {
                        assert(slot(channel, key) != slot(channel_of(kind), key_of(kind)));
                    }
                }
            }
        }
        k = k + 1;
    }
}

/// Orders events by ascending time; events of equal time keep their order.
pub fn sort_by_time(events: Vec<MidiEvent>) -> (sorted: Vec<MidiEvent>)
    ensures
        sorted@ == in_time_order(events@),
        is_stable_order(stable_order_of(event_times(events@)), event_times(events@)),
{
    let n: usize = events.len();
    let mut times: Vec<u64> = Vec::new();
    let mut i: usize = 0;
    while i < n
        invariant
            i <= n,
            n == events.len(),
            times.len() == i,
            forall|m: int| 0 <= m < i ==> times@[m] == events@[m].time,
        decreases n - i,
    {
        times.push(events[i].time);
        i = i + 1;
    }
    assert(times@ =~= event_times(events@));
    let order = stable_order(&times);
    let mut sorted: Vec<MidiEvent> = Vec::new();
    let mut k: usize = 0;
    while k < n
        invariant
            k <= n,
            n == events.len(),
            order.len() == n,
            forall|m: int| 0 <= m < n ==> 0 <= #[trigger] order@[m] < n,
            sorted.len() == k,
            forall|m: int| 0 <= m < k ==> sorted@[m] == events@[order@[m] as int],
        decreases n - k,
    {
        sorted.push(events[order[k]]);
        k = k + 1;
    }
    assert(sorted@ =~= in_time_order(events@));
    sorted
}

/// Reconstructs the note timeline of a file: pairs the note events of each
/// track, converts their ticks to elapsed time, and orders all emitted
/// events by time.
pub fn reconstruct_notes(map: &Vec<TempoChange>, tracks: &Vec<Vec<TrackEvent>>) -> (events: Vec<
    MidiEvent,
>)
    requires
        is_tempo_map(map@),
        all_ticks_fit(track_seqs(tracks@)),
    ensures
        events@ == note_timeline(map@, track_seqs(tracks@)),
        timeline_ordered(map@, track_seqs(tracks@)),
{
    let mut emitted: Vec<MidiEvent> = Vec::new();
    let mut t: usize = 0;
    while t < tracks.len()
        invariant
            t <= tracks.len(),
            is_tempo_map(map@),
            all_ticks_fit(track_seqs(tracks@)),
            emitted@ == emitted_notes(map@, track_seqs(tracks@), t as int),
        decreases tracks.len() - t,
    {
        assert(track_seqs(tracks@)[t as int] == tracks@[t as int]@);
        collect_track_notes(map, &tracks[t], t, &mut emitted);
        t = t + 1;
    }
    sort_by_time(emitted)
}

} // verus!
