//! The analysis of a MIDI file: the note timeline, the range statistics of
//! the file, and the diagnostics of each track that holds notes.

use vstd::prelude::*;
use vstd::string::StringExecFns;
use vstd::utf8::{decode_utf8, valid_utf8};
use crate::decode::{decode_midi, decoded_content, DecodeError, Timing};
use crate::notes::{note_timeline, reconstruct_notes, timeline_ordered};
use crate::pitch::{black_key_mode_from_name, remap_black_key, remapped_note, BlackKeyMode};
use crate::range::{
    analyze_all_notes, analyze_track_notes, global_analysis_of, track_analysis_of, AnalysisResult,
    AnalysisResultView, TrackAnalysis, TrackAnalysisView,
};
use crate::tempo::{build_tempo_map, is_tempo_map_of, tempo_map_of, TempoChange};
use crate::text::{decimal, push_decimal};
use crate::track::{
    all_ticks_fit, all_ticks_in_range, lemma_tick_after_monotonic, tick_after, ticks_fit,
    track_seqs, EventKind, MidiEvent, NoteKind, TrackEvent,
};

verus! {

/// The tempo changes among the first `k` events of a track, each at the tick
/// of its event.
pub open spec fn track_tempo_changes(events: Seq<TrackEvent>, k: int) -> Seq<TempoChange>
    decreases k,
{
    if k <= 0 {
        Seq::empty()
    } else {
        let before = track_tempo_changes(events, k - 1);
        match events[k - 1].kind {
            EventKind::Tempo(micros_per_beat) => before.push(
                TempoChange { tick: tick_after(events, k) as u32, micros_per_beat },
            ),
            _ => before,
        }
    }
}

/// The tempo changes of the first `t` tracks, in the order of the scan:
/// track by track, each from its first event on.
pub open spec fn tempo_changes(tracks: Seq<Seq<TrackEvent>>, t: int) -> Seq<TempoChange>
    decreases t,
{
    if t <= 0 {
        Seq::empty()
    } else {
        tempo_changes(tracks, t - 1) + track_tempo_changes(
            tracks[t - 1],
            tracks[t - 1].len() as int,
        )
    }
}

/// The keys of the opening note-ons among the first `k` events of a track.
pub open spec fn opened_keys(events: Seq<TrackEvent>, k: int) -> Seq<u8>
    decreases k,
{
    if k <= 0 {
        Seq::empty()
    } else {
        let before = opened_keys(events, k - 1);
        match events[k - 1].kind {
            EventKind::NoteOn { channel: _, key, vel } => if vel > 0 {
                before.push(key)
            } else {
                before
            },
            _ => before,
        }
    }
}

/// The name of a track that names itself nowhere.
pub open spec fn default_track_name(track: usize) -> Seq<char> {
    "Track "@ + decimal(track as nat)
}

/// The name of a track after its first `k` events: the text of the last
/// track-name event that is valid UTF-8, or the default name.
pub open spec fn track_name(events: Seq<TrackEvent>, track: usize, k: int) -> Seq<char>
    decreases k,
{
    if k <= 0 {
        default_track_name(track)
    } else {
        let before = track_name(events, track, k - 1);
        match events[k - 1].kind {
            EventKind::TrackName(bytes) => if valid_utf8(bytes@) {
                decode_utf8(bytes@)
            } else {
                before
            },
            _ => before,
        }
    }
}

/// The notes of the note-on events among the first `k` of a timeline.
pub open spec fn sounding_notes(events: Seq<MidiEvent>, k: int) -> Seq<u8>
    decreases k,
{
    if k <= 0 {
        Seq::empty()
    } else {
        let before = sounding_notes(events, k - 1);
        if events[k - 1].kind == NoteKind::NoteOn {
            before.push(events[k - 1].note)
        } else {
            before
        }
    }
}

/// An event under the black-key mode: with `AutoSharp` its note snaps to
/// the nearest white key, nothing else changes.
pub open spec fn remapped_event(event: MidiEvent, mode: BlackKeyMode) -> MidiEvent {
    match mode {
        BlackKeyMode::AutoSharp => MidiEvent { note: remapped_note(event.note), ..event },
        BlackKeyMode::Keep => event,
    }
}

/// A timeline under the black-key mode.
pub open spec fn remapped(events: Seq<MidiEvent>, mode: BlackKeyMode) -> Seq<MidiEvent> {
    Seq::new(events.len(), |i: int| remapped_event(events[i], mode))
}

/// A track that holds notes, with its diagnostics.
#[derive(Clone, Debug, PartialEq, Eq)]
pub struct TrackInfo {
    pub id: usize,
    pub name: String,
    pub note_count: usize,
    pub analysis: TrackAnalysis,
}

/// What a [`TrackInfo`] holds, with the texts as character sequences.
pub struct TrackInfoView {
    pub id: usize,
    pub name: Seq<char>,
    pub note_count: nat,
    pub analysis: TrackAnalysisView,
}

impl View for TrackInfo {
    type V = TrackInfoView;

    open spec fn view(&self) -> TrackInfoView {
        TrackInfoView {
            id: self.id,
            name: self.name@,
            note_count: self.note_count as nat,
            analysis: self.analysis@,
        }
    }
}

/// The views of a list of track infos.
pub open spec fn info_views(infos: Seq<TrackInfo>) -> Seq<TrackInfoView> {
    Seq::new(infos.len(), |i: int| infos[i]@)
}

/// The info of one track.
pub open spec fn track_info_of(
    events: Seq<TrackEvent>,
    track: usize,
    limit_min: u8,
    limit_max: u8,
) -> TrackInfoView {
    let keys = opened_keys(events, events.len() as int);
    TrackInfoView {
        id: track,
        name: track_name(events, track, events.len() as int),
        note_count: keys.len(),
        analysis: track_analysis_of(keys, limit_min, limit_max),
    }
}

/// The infos of the first `t` tracks: one for each track with at least one
/// opening note-on, in track order.
pub open spec fn track_infos(
    tracks: Seq<Seq<TrackEvent>>,
    t: int,
    limit_min: u8,
    limit_max: u8,
) -> Seq<TrackInfoView>
    decreases t,
{
    if t <= 0 {
        Seq::empty()
    } else {
        let before = track_infos(tracks, t - 1, limit_min, limit_max);
        if opened_keys(tracks[t - 1], tracks[t - 1].len() as int).len() > 0 {
            before.push(track_info_of(tracks[t - 1], (t - 1) as usize, limit_min, limit_max))
        } else {
            before
        }
    }
}

/// The result of analysing a file.
#[derive(Clone, Debug, PartialEq, Eq)]
pub struct MidiAnalysis {
    /// The note timeline. Times are in microsecond-ticks: divide by
    /// `ticks_per_beat` for microseconds.
    pub events: Vec<MidiEvent>,
    pub analysis: AnalysisResult,
    pub tracks: Vec<TrackInfo>,
    pub ticks_per_beat: u16,
}

/// What a [`MidiAnalysis`] holds.
pub struct MidiAnalysisView {
    pub events: Seq<MidiEvent>,
    pub analysis: AnalysisResultView,
    pub tracks: Seq<TrackInfoView>,
    pub ticks_per_beat: u16,
}

impl View for MidiAnalysis {
    type V = MidiAnalysisView;

    open spec fn view(&self) -> MidiAnalysisView {
        MidiAnalysisView {
            events: self.events@,
            analysis: self.analysis@,
            tracks: info_views(self.tracks@),
            ticks_per_beat: self.ticks_per_beat,
        }
    }
}

/// The analysis of the tracks of a file.
///
/// The tempo map comes from the tempo events of all tracks. The timeline is
/// the note timeline under that map, remapped by the black-key mode. The
/// file-wide statistics count the note-on events of the timeline; the track
/// infos count the opening note-ons of each track as written, against the
/// range from `min_note` to `max_note`.
pub open spec fn analysis_of(
    tracks: Seq<Seq<TrackEvent>>,
    ticks_per_beat: u16,
    min_note: u8,
    max_note: u8,
    mode: BlackKeyMode,
) -> MidiAnalysisView {
    let map = tempo_map_of(tempo_changes(tracks, tracks.len() as int));
    let events = remapped(note_timeline(map, tracks), mode);
    MidiAnalysisView {
        events,
        analysis: global_analysis_of(sounding_notes(events, events.len() as int)),
        tracks: track_infos(tracks, tracks.len() as int, min_note, max_note),
        ticks_per_beat,
    }
}

/// What [`analysis_of`] builds on is well defined: the tempo changes of the
/// tracks have a tempo map, and the emitted events an order by time.
pub open spec fn analysis_defined(tracks: Seq<Seq<TrackEvent>>) -> bool {
    let changes = tempo_changes(tracks, tracks.len() as int);
    is_tempo_map_of(tempo_map_of(changes), changes) && timeline_ordered(
        tempo_map_of(changes),
        tracks,
    )
}

/// Converts bytes to a `String` with `String::from_utf8`, which succeeds
/// exactly on valid UTF-8 and then holds the decoded characters.
#[verifier::external_body]
fn utf8_text(bytes: &Vec<u8>) -> (text: Option<String>)
    ensures
        match text {
            Some(s) => valid_utf8(bytes@) && s@ == decode_utf8(bytes@),
            None => !valid_utf8(bytes@),
        },
{
    String::from_utf8(bytes.clone()).ok()
}

/// What the scan of one track finds besides its tempo changes.
#[derive(Clone, Debug, PartialEq, Eq)]
pub struct TrackScan {
    pub name: String,
    pub keys: Vec<u8>,
}

/// Scans one track: appends its tempo changes to `changes`, and finds its
/// name and the keys of its opening note-ons.
pub fn scan_track(events: &Vec<TrackEvent>, track: usize, changes: &mut Vec<TempoChange>) -> (scan:
    TrackScan)
    requires
        ticks_fit(events@),
    ensures
        final(changes)@ == old(changes)@ + track_tempo_changes(events@, events@.len() as int),
        scan.name@ == track_name(events@, track, events@.len() as int),
        scan.keys@ == opened_keys(events@, events@.len() as int),
{
    let mut name = String::from_str("Track ");
    push_decimal(&mut name, track);
    let mut keys: Vec<u8> = Vec::new();
    let mut current_tick: u32 = 0;
    let mut k: usize = 0;
    while k < events.len()
        invariant
            k <= events.len(),
            ticks_fit(events@),
            current_tick == tick_after(events@, k as int),
            changes@ == old(changes)@ + track_tempo_changes(events@, k as int),
            name@ == track_name(events@, track, k as int),
            keys@ == opened_keys(events@, k as int),
        decreases events.len() - k,
    {
        proof {
            lemma_tick_after_monotonic(events@, k + 1, events@.len() as int);
        }
        current_tick = current_tick + events[k].delta;
        match &events[k].kind {
            EventKind::Tempo(micros_per_beat) => {
                changes.push(TempoChange { tick: current_tick, micros_per_beat: *micros_per_beat });
            },
            EventKind::TrackName(bytes) => {
                if let Some(text) = utf8_text(bytes) {
                    name = text;
                }
            },
            EventKind::NoteOn { channel: _, key, vel } => {
                if *vel > 0 {
                    keys.push(*key);
                }
            },
            _ => {},
        }
        k = k + 1;
        assert(changes@ =~= old(changes)@ + track_tempo_changes(events@, k as int));
    }
    TrackScan { name, keys }
}

/// Applies the black-key mode to a timeline.
pub fn apply_black_key_mode(events: &mut Vec<MidiEvent>, mode: BlackKeyMode)
    ensures
        final(events)@ == remapped(old(events)@, mode),
{
    match mode {
        BlackKeyMode::Keep => {
            assert(events@ =~= remapped(events@, mode));
        },
        BlackKeyMode::AutoSharp => {
            let n: usize = events.len();
            let mut i: usize = 0;
            while i < n
                invariant
                    i <= n,
                    n == events.len(),
                    events.len() == old(events).len(),
                    mode == BlackKeyMode::AutoSharp,
                    forall|k: int|
                        0 <= k < i ==> #[trigger] events@[k] == remapped_event(old(events)@[k], mode),
                    forall|k: int| i <= k < n ==> #[trigger] events@[k] == old(events)@[k],
                decreases n - i,
            {
                let event: MidiEvent = events[i];
                events.set(i, MidiEvent { note: remap_black_key(event.note), ..event });
                i = i + 1;
            }
            assert(events@ =~= remapped(old(events)@, mode));
        },
    }
}

/// Gathers the notes of the note-on events of a timeline.
pub fn collect_sounding_notes(events: &Vec<MidiEvent>) -> (notes: Vec<u8>)
    ensures
        notes@ == sounding_notes(events@, events@.len() as int),
{
    let mut notes: Vec<u8> = Vec::new();
    let mut k: usize = 0;
    while k < events.len()
        invariant
            k <= events.len(),
            notes@ == sounding_notes(events@, k as int),
        decreases events.len() - k,
    {
        if events[k].kind == NoteKind::NoteOn {
            notes.push(events[k].note);
        }
        k = k + 1;
    }
    notes
}

/// Analyses the tracks of a file: builds the tempo map, reconstructs and
/// orders the notes, applies the black-key mode, and computes the range
/// statistics of the file and of each track that holds notes.
pub fn analyze_tracks(
    tracks: &Vec<Vec<TrackEvent>>,
    ticks_per_beat: u16,
    min_note: u8,
    max_note: u8,
    mode: BlackKeyMode,
) -> (analysis: MidiAnalysis)
    requires
        all_ticks_fit(track_seqs(tracks@)),
    ensures
        analysis@ == analysis_of(track_seqs(tracks@), ticks_per_beat, min_note, max_note, mode),
        analysis_defined(track_seqs(tracks@)),
{
    let ghost seqs = track_seqs(tracks@);
    let mut changes: Vec<TempoChange> = Vec::new();
    let mut infos: Vec<TrackInfo> = Vec::new();
    let mut t: usize = 0;
    while t < tracks.len()
        invariant
            t <= tracks.len(),
            seqs == track_seqs(tracks@),
            all_ticks_fit(seqs),
            changes@ == tempo_changes(seqs, t as int),
            info_views(infos@) == track_infos(seqs, t as int, min_note, max_note),
        decreases tracks.len() - t,
    {
        assert(seqs[t as int] == tracks@[t as int]@);
        let ghost before = info_views(infos@);
        let scan = scan_track(&tracks[t], t, &mut changes);
        if scan.keys.len() > 0 {
            let analysis = analyze_track_notes(&scan.keys, min_note, max_note);
            let info = TrackInfo { id: t, name: scan.name, note_count: scan.keys.len(), analysis };
            assert(info@ == track_info_of(seqs[t as int], t, min_note, max_note));
            infos.push(info);
            assert(info_views(infos@) =~= before.push(info@));
        }
        t = t + 1;
    }
    let map = build_tempo_map(&changes);
    let mut events = reconstruct_notes(&map, tracks);
    apply_black_key_mode(&mut events, mode);
    let notes = collect_sounding_notes(&events);
    let analysis = analyze_all_notes(&notes);
    MidiAnalysis { events, analysis, tracks: infos, ticks_per_beat }
}

/// Why a file could not be analysed.
#[derive(Clone, Debug, PartialEq, Eq)]
pub enum AnalyzeError {
    /// The bytes are no MIDI file; the text says what the parser met.
    Malformed(String),
    /// The file counts time by timecode, not in ticks per beat.
    UnsupportedTiming,
    /// The running tick of some track leaves the 32-bit range.
    TickOverflow,
}

/// Analyses a MIDI file from its bytes.
///
/// Fails with `Malformed` where the bytes do not parse, or hold a timecode
/// that the parser cannot negate; with `UnsupportedTiming` where the file
/// counts time by timecode; and with `TickOverflow` where a track runs past
/// the 32-bit tick range. On every other file it succeeds with the analysis
/// of its tracks.
pub fn analyze_midi_file(bytes: &[u8], min_note: u8, max_note: u8, black_key_mode: &str) -> (result:
    Result<MidiAnalysis, AnalyzeError>)
    ensures
        match decoded_content(bytes@) {
            None => result matches Err(AnalyzeError::Malformed(_)),
            Some(content) => match content.timing {
                Timing::Timecode => result == Err::<MidiAnalysis, AnalyzeError>(
                    AnalyzeError::UnsupportedTiming,
                ),
                Timing::Metrical(ticks_per_beat) => if all_ticks_fit(content.tracks) {
                    result matches Ok(analysis) && analysis_defined(content.tracks) && analysis@
                        == analysis_of(
                        content.tracks,
                        ticks_per_beat,
                        min_note,
                        max_note,
                        if black_key_mode@ == "auto_sharp"@ {
                            BlackKeyMode::AutoSharp
                        } else {
                            BlackKeyMode::Keep
                        },
                    )
                } else {
                    result == Err::<MidiAnalysis, AnalyzeError>(AnalyzeError::TickOverflow)
                },
            },
        },
{
    match decode_midi(bytes) {
        Err(DecodeError::Malformed(text)) => Err(AnalyzeError::Malformed(text)),
        Ok(file) => {
            match file.timing {
                Timing::Timecode => Err(AnalyzeError::UnsupportedTiming),
                Timing::Metrical(ticks_per_beat) => {
                    if all_ticks_in_range(&file.tracks) {
                        let mode = black_key_mode_from_name(black_key_mode);
                        Ok(analyze_tracks(&file.tracks, ticks_per_beat, min_note, max_note, mode))
                    } else {
                        Err(AnalyzeError::TickOverflow)
                    }
                },
            }
        },
    }
}

} // verus!
