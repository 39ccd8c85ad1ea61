//! Decoded track events and the notes reconstructed from them.

use vstd::prelude::*;

verus! {

/// What a track event carries, as far as the analysis reads it.
#[derive(Clone, Debug, PartialEq, Eq)]
pub enum EventKind {
    /// A key goes down; with velocity 0 it stands for a key going up.
    NoteOn { channel: u8, key: u8, vel: u8 },
    /// A key goes up.
    NoteOff { channel: u8, key: u8 },
    /// A tempo meta-event, in microseconds per beat.
    Tempo(u32),
    /// A track-name meta-event with the raw bytes of the name.
    TrackName(Vec<u8>),
    /// Any other event; only its delta time counts.
    Other,
}

/// One event of a track: the ticks since the previous event, and the event.
#[derive(Clone, Debug, PartialEq, Eq)]
pub struct TrackEvent {
    pub delta: u32,
    pub kind: EventKind,
}

/// Whether a reconstructed event starts or ends a note.
#[derive(Clone, Copy, Debug, PartialEq, Eq, Structural)]
pub enum NoteKind {
    NoteOn,
    NoteOff,
}

/// One end of a reconstructed note. A note yields two of these, which share
/// note, channel, track and end time.
///
/// `time`, `duration` and `end` are exact and counted in microsecond-ticks:
/// divide by the file's ticks per beat for microseconds.
#[derive(Clone, Copy, Debug, PartialEq, Eq, Structural)]
pub struct MidiEvent {
    pub time: u64,
    pub kind: NoteKind,
    pub note: u8,
    pub channel: u8,
    pub track: usize,
    pub velocity: u8,
    pub duration: u64,
    pub end: u64,
}

/// The tracks of a file as plain sequences.
pub open spec fn track_seqs(tracks: Seq<Vec<TrackEvent>>) -> Seq<Seq<TrackEvent>> {
    Seq::new(tracks.len(), |t: int| tracks[t]@)
}

/// The tick reached after the first `n` events of a track: the sum of their
/// delta times.
pub open spec fn tick_after(events: Seq<TrackEvent>, n: int) -> int
    decreases n,
{
    if n <= 0 {
        0
    } else {
        tick_after(events, n - 1) + events[n - 1].delta
    }
}

/// The track's running tick stays within 32 bits.
pub open spec fn ticks_fit(events: Seq<TrackEvent>) -> bool {
    tick_after(events, events.len() as int) <= u32::MAX
}

/// Every track's running tick stays within 32 bits.
pub open spec fn all_ticks_fit(tracks: Seq<Seq<TrackEvent>>) -> bool {
    forall|t: int| 0 <= t < tracks.len() ==> ticks_fit(#[trigger] tracks[t])
}

/// The running tick starts at zero and never decreases along a track.
pub proof fn lemma_tick_after_monotonic(events: Seq<TrackEvent>, a: int, b: int)
    requires
        a <= b,
    ensures
        0 <= tick_after(events, a) <= tick_after(events, b),
    decreases b,
{
    if b > 0 {
        if a < b {
            lemma_tick_after_monotonic(events, a, b - 1);
        } else {
            lemma_tick_after_monotonic(events, a - 1, b - 1);
        }
    }
}

/// Tells whether the running tick of a track stays within 32 bits.
pub fn ticks_in_range(events: &Vec<TrackEvent>) -> (fit: bool)
    ensures
        fit == ticks_fit(events@),
{
    let mut total: u64 = 0;
    let mut i: usize = 0;
    while i < events.len()
        invariant
            i <= events.len(),
            total == tick_after(events@, i as int),
            total <= u32::MAX,
        decreases events.len() - i,
    {
        total = total + events[i].delta as u64;
        i = i + 1;
        if total > 0xffff_ffff {
            proof {
                lemma_tick_after_monotonic(events@, i as int, events@.len() as int);
            }
            return false;
        }
    }
    true
}

/// Tells whether the running tick of every track stays within 32 bits.
pub fn all_ticks_in_range(tracks: &Vec<Vec<TrackEvent>>) -> (fit: bool)
    ensures
        fit == all_ticks_fit(track_seqs(tracks@)),
{
    let mut t: usize = 0;
    while t < tracks.len()
        invariant
            t <= tracks.len(),
            forall|k: int| 0 <= k < t ==> ticks_fit(#[trigger] track_seqs(tracks@)[k]),
        decreases tracks.len() - t,
    {
        if !ticks_in_range(&tracks[t]) {
            assert(!ticks_fit(track_seqs(tracks@)[t as int]));
            return false;
        }
        t = t + 1;
    }
    true
}

} // verus!
