//! Decoding of a Standard MIDI File into plain track events.
//!
//! The bytes are parsed by the `midly` crate. Its parsed file is opaque
//! here: the trusted functions of this module read it one item at a time,
//! and the verified loops copy what they read into the crate's own types.

use midly::{MetaMessage, MidiMessage, Smf, TrackEventKind};
use vstd::prelude::*;
use vstd::string::StringExecFns;
use crate::guard::{reads_overflowing_timecode, timecode_overflows};
use crate::track::{track_seqs, EventKind, TrackEvent};

verus! {

/// The parsed file of `midly`.
#[verifier::external_type_specification]
#[verifier::external_body]
pub struct ExSmf<'a>(midly::Smf<'a>);

/// The parse error of `midly`.
#[verifier::external_type_specification]
#[verifier::external_body]
pub struct ExParseError(midly::Error);

/// How a file counts time.
#[derive(Clone, Copy, Debug, PartialEq, Eq, Structural)]
pub enum Timing {
    /// Ticks per beat; tempo events give the length of a beat.
    Metrical(u16),
    /// Ticks per frame of a timecode.
    Timecode,
}

/// The contents of a decoded file.
pub struct MidiContent {
    pub timing: Timing,
    pub tracks: Seq<Seq<TrackEvent>>,
}

/// What parsing `bytes` yields: the contents of the file, or nothing where
/// the bytes are no MIDI file.
pub uninterp spec fn parsed_content(bytes: Seq<u8>) -> Option<MidiContent>;

/// The tracks that a parsed file holds.
pub uninterp spec fn smf_tracks(smf: Smf) -> Seq<Seq<TrackEvent>>;

/// The timing that the header of a parsed file states.
pub uninterp spec fn smf_timing(smf: Smf) -> Timing;

/// The contents of a parsed file.
pub open spec fn smf_content(smf: Smf) -> MidiContent {
    MidiContent { timing: smf_timing(smf), tracks: smf_tracks(smf) }
}

/// What decoding `bytes` yields: nothing where parsing would read a timing
/// field that overflows, and what parsing yields on all other bytes.
pub open spec fn decoded_content(bytes: Seq<u8>) -> Option<MidiContent> {
    if reads_overflowing_timecode(bytes) {
        None
    } else {
        parsed_content(bytes)
    }
}

/// Calls `midly::Smf::parse`. The contract names the outcome: the same
/// bytes always parse to the same contents, or always fail. Bytes on which
/// the parser would negate the timecode byte 0x80 are left out: there it
/// overflows, and panics where overflow is checked.
#[verifier::external_body]
fn parse_smf<'a>(bytes: &'a [u8]) -> (parsed: Result<Smf<'a>, midly::Error>)
    requires
        !reads_overflowing_timecode(bytes@),
    ensures
        match parsed {
            Ok(smf) => parsed_content(bytes@) == Some(smf_content(smf)),
            Err(_) => parsed_content(bytes@) is None,
        },
{
    Smf::parse(bytes)
}

/// Writes out a `midly::Error` through its `Display` impl. Nothing is
/// claimed of the text.
#[verifier::external_body]
fn parse_error_text(error: &midly::Error) -> (text: String) {
    format!("{}", error)
}

/// Reads `header.timing` of a `midly::Smf`; a metrical timing hands over its
/// ticks per beat.
#[verifier::external_body]
fn timing_of(smf: &Smf) -> (timing: Timing)
    ensures
        timing == smf_timing(*smf),
{
    match smf.header.timing {
        midly::Timing::Metrical(ticks) => Timing::Metrical(ticks.as_int()),
        midly::Timing::Timecode(_, _) => Timing::Timecode,
    }
}

/// Reads the number of tracks of a `midly::Smf`.
#[verifier::external_body]
fn track_count(smf: &Smf) -> (count: usize)
    ensures
        count == smf_tracks(*smf).len(),
{
    smf.tracks.len()
}

/// Reads the number of events of one track of a `midly::Smf`.
#[verifier::external_body]
fn track_length(smf: &Smf, track: usize) -> (count: usize)
    requires
        track < smf_tracks(*smf).len(),
    ensures
        count == smf_tracks(*smf)[track as int].len(),
{
    smf.tracks[track].len()
}

/// Reads one `midly::TrackEvent` of a `midly::Smf`: its delta time, and of
/// its kind what a note-on, a note-off, a tempo and a track name carry.
#[verifier::external_body]
fn event_at(smf: &Smf, track: usize, index: usize) -> (event: TrackEvent)
    requires
        track < smf_tracks(*smf).len(),
        index < smf_tracks(*smf)[track as int].len(),
    ensures
        event == smf_tracks(*smf)[track as int][index as int],
{
    let source = &smf.tracks[track][index];
    let kind = match source.kind {
        TrackEventKind::Midi { channel, message: MidiMessage::NoteOn { key, vel } } =>
            EventKind::NoteOn { channel: channel.as_int(), key: key.as_int(), vel: vel.as_int() },
        TrackEventKind::Midi { channel, message: MidiMessage::NoteOff { key, .. } } =>
            EventKind::NoteOff { channel: channel.as_int(), key: key.as_int() },
        TrackEventKind::Meta(MetaMessage::Tempo(tempo)) => EventKind::Tempo(tempo.as_int()),
        TrackEventKind::Meta(MetaMessage::TrackName(name)) => EventKind::TrackName(name.to_vec()),
        _ => EventKind::Other,
    };
    TrackEvent { delta: source.delta.as_int(), kind }
}

/// A decoded file: its timing and the events of its tracks.
#[derive(Clone, Debug, PartialEq, Eq)]
pub struct MidiFile {
    pub timing: Timing,
    pub tracks: Vec<Vec<TrackEvent>>,
}

impl View for MidiFile {
    type V = MidiContent;

    open spec fn view(&self) -> MidiContent {
        MidiContent { timing: self.timing, tracks: track_seqs(self.tracks@) }
    }
}

/// Why bytes could not be decoded.
#[derive(Clone, Debug, PartialEq, Eq)]
pub enum DecodeError {
    /// The bytes are no MIDI file; the text says what the parser met.
    Malformed(String),
}

/// Decodes the bytes of a Standard MIDI File.
///
/// Succeeds exactly where the bytes parse, and then hands back the parsed
/// contents. Bytes whose timecode the parser cannot negate are refused
/// before they reach it.
pub fn decode_midi(bytes: &[u8]) -> (decoded: Result<MidiFile, DecodeError>)
    ensures
        match decoded {
            Ok(file) => decoded_content(bytes@) == Some(file@),
            Err(_) => decoded_content(bytes@) is None,
        },
{
    if timecode_overflows(bytes) {
        return Err(DecodeError::Malformed(String::from_str("invalid timecode frame rate")));
    }
    match parse_smf(bytes) {
        Ok(smf) => {
            let timing = timing_of(&smf);
            let count: usize = track_count(&smf);
            let mut tracks: Vec<Vec<TrackEvent>> = Vec::new();
            let mut t: usize = 0;
            while t < count
                invariant
                    t <= count,
                    count == smf_tracks(smf).len(),
                    tracks.len() == t,
                    forall|k: int| 0 <= k < t ==> (#[trigger] tracks@[k])@ == smf_tracks(smf)[k],
                decreases count - t,
            {
                let length: usize = track_length(&smf, t);
                let mut events: Vec<TrackEvent> = Vec::new();
                let mut i: usize = 0;
                while i < length
                    invariant
                        i <= length,
                        t < smf_tracks(smf).len(),
                        length == smf_tracks(smf)[t as int].len(),
                        events.len() == i,
                        forall|k: int|
                            0 <= k < i ==> #[trigger] events@[k] == smf_tracks(smf)[t as int][k],
                    decreases length - i,
                {
                    events.push(event_at(&smf, t, i));
                    i = i + 1;
                }
                assert(events@ =~= smf_tracks(smf)[t as int]);
                tracks.push(events);
                t = t + 1;
            }
            let file = MidiFile { timing, tracks };
            assert(file@.tracks =~= smf_tracks(smf));
            Ok(file)
        },
        Err(error) => Err(DecodeError::Malformed(parse_error_text(&error))),
    }
}

} // verus!
