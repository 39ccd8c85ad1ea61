use midi_playback::analysis::{
    analyze_midi_file, analyze_tracks, apply_black_key_mode, collect_sounding_notes, scan_track,
    AnalyzeError,
};
use midi_playback::decode::{decode_midi, DecodeError, Timing};
use midi_playback::pitch::BlackKeyMode;
use midi_playback::tempo::TempoChange;
use midi_playback::track::{EventKind, MidiEvent, NoteKind, TrackEvent};

fn event(delta: u32, kind: EventKind) -> TrackEvent {
    TrackEvent { delta, kind }
}

fn on(delta: u32, channel: u8, key: u8, vel: u8) -> TrackEvent {
    event(delta, EventKind::NoteOn { channel, key, vel })
}

fn off(delta: u32, channel: u8, key: u8) -> TrackEvent {
    event(delta, EventKind::NoteOff { channel, key })
}

fn var_len(value: u32) -> Vec<u8> {
    let mut bytes = vec![(value & 0x7f) as u8];
    let mut rest = value >> 7;
    while rest > 0 {
        bytes.insert(0, (rest & 0x7f) as u8 | 0x80);
        rest >>= 7;
    }
    bytes
}

fn header(format: u16, tracks: u16, division: [u8; 2]) -> Vec<u8> {
    let mut bytes = b"MThd".to_vec();
    bytes.extend_from_slice(&[0, 0, 0, 6]);
    bytes.extend_from_slice(&format.to_be_bytes());
    bytes.extend_from_slice(&tracks.to_be_bytes());
    bytes.extend_from_slice(&division);
    bytes
}

fn track_chunk(events: &[(u32, Vec<u8>)]) -> Vec<u8> {
    let mut body = Vec::new();
    for (delta, data) in events {
        body.extend(var_len(*delta));
        body.extend_from_slice(data);
    }
    body.extend_from_slice(&[0, 0xff, 0x2f, 0]);
    let mut bytes = b"MTrk".to_vec();
    bytes.extend_from_slice(&(body.len() as u32).to_be_bytes());
    bytes.extend(body);
    bytes
}

fn tempo_bytes(micros_per_beat: u32) -> Vec<u8> {
    let be = micros_per_beat.to_be_bytes();
    vec![0xff, 0x51, 3, be[1], be[2], be[3]]
}

fn name_bytes(name: &[u8]) -> Vec<u8> {
    let mut bytes = vec![0xff, 0x03, name.len() as u8];
    bytes.extend_from_slice(name);
    bytes
}

fn simple_file() -> Vec<u8> {
    let mut bytes = header(1, 2, [0x01, 0xe0]);
    bytes.extend(track_chunk(&[(0, tempo_bytes(250_000)), (0, name_bytes(b"Conductor"))]));
    bytes.extend(track_chunk(&[
        (0, name_bytes(b"Piano")),
        (0, vec![0x90, 61, 64]),
        (480, vec![0x80, 61, 0]),
        (0, vec![0x91, 90, 100]),
        (240, vec![0x91, 90, 0]),
    ]));
    bytes
}

fn seconds(time: u64, ticks_per_beat: u16) -> f64 {
    time as f64 / (ticks_per_beat as f64 * 1_000_000.0)
}

#[test]
fn decode_reads_header_and_events() {
    let file = decode_midi(&simple_file()).unwrap();
    assert_eq!(file.timing, Timing::Metrical(480));
    assert_eq!(file.tracks.len(), 2);
    assert_eq!(
        file.tracks[0],
        vec![
            event(0, EventKind::Tempo(250_000)),
            event(0, EventKind::TrackName(b"Conductor".to_vec())),
            event(0, EventKind::Other),
        ]
    );
    assert_eq!(
        file.tracks[1],
        vec![
            event(0, EventKind::TrackName(b"Piano".to_vec())),
            on(0, 0, 61, 64),
            off(480, 0, 61),
            on(0, 1, 90, 100),
            on(240, 1, 90, 0),
            event(0, EventKind::Other),
        ]
    );
}

#[test]
fn decode_rejects_bytes_that_are_no_midi_file() {
    assert!(matches!(decode_midi(b"not a midi file"), Err(DecodeError::Malformed(_))));
    assert!(matches!(decode_midi(&[]), Err(DecodeError::Malformed(_))));
}

#[test]
fn decode_is_repeatable() {
    let bytes = simple_file();
    assert_eq!(decode_midi(&bytes), decode_midi(&bytes));
}

#[test]
fn decode_keeps_wide_delta_times() {
    let mut bytes = header(0, 1, [0x00, 0x60]);
    bytes.extend(track_chunk(&[(0x0fff_ffff, vec![0x90, 60, 1]), (200, vec![0x80, 60, 0])]));
    let file = decode_midi(&bytes).unwrap();
    assert_eq!(file.timing, Timing::Metrical(96));
    assert_eq!(file.tracks[0][0], on(0x0fff_ffff, 0, 60, 1));
    assert_eq!(file.tracks[0][1], off(200, 0, 60));
}

#[test]
fn analysis_of_a_file_from_its_bytes() {
    let result = analyze_midi_file(&simple_file(), 48, 83, "none").unwrap();
    assert_eq!(result.ticks_per_beat, 480);
    assert_eq!(result.events.len(), 4);
    let seen: Vec<(f64, NoteKind, u8, u8, usize, u8, f64, f64)> = result
        .events
        .iter()
        .map(|e| {
            (
                seconds(e.time, 480),
                e.kind,
                e.note,
                e.channel,
                e.track,
                e.velocity,
                seconds(e.duration, 480),
                seconds(e.end, 480),
            )
        })
        .collect();
    assert_eq!(
        seen,
        vec![
            (0.0, NoteKind::NoteOn, 61, 0, 1, 64, 0.25, 0.25),
            (0.25, NoteKind::NoteOff, 61, 0, 1, 0, 0.0, 0.25),
            (0.25, NoteKind::NoteOn, 90, 1, 1, 100, 0.125, 0.375),
            (0.375, NoteKind::NoteOff, 90, 1, 1, 0, 0.0, 0.375),
        ]
    );
    assert_eq!(result.analysis.min_note, Some(61));
    assert_eq!(result.analysis.max_note, Some(90));
    assert_eq!(result.analysis.under_min_count, 0);
    assert_eq!(result.analysis.over_max_count, 1);
    assert_eq!(result.analysis.total_over_limit_count, 1);
    assert_eq!(result.analysis.min_note_name, "C#4");
    assert_eq!(result.analysis.max_note_name, "F#6");
    assert_eq!(result.tracks.len(), 1);
    assert_eq!(result.tracks[0].id, 1);
    assert_eq!(result.tracks[0].name, "Piano");
    assert_eq!(result.tracks[0].note_count, 2);
    assert!(result.tracks[0].analysis.is_max_over_limit);
    assert_eq!(result.tracks[0].analysis.suggested_max_transpose, Some(5));
    assert_eq!(result.tracks[0].analysis.suggested_max_octave, Some(-1));
}

#[test]
fn auto_sharp_remaps_the_timeline_but_not_the_track_statistics() {
    let result = analyze_midi_file(&simple_file(), 48, 83, "auto_sharp").unwrap();
    let notes: Vec<u8> = result.events.iter().map(|e| e.note).collect();
    assert_eq!(notes, vec![60, 60, 89, 89]);
    assert_eq!(result.analysis.min_note, Some(60));
    assert_eq!(result.analysis.max_note, Some(89));
    assert_eq!(result.analysis.min_note_name, "C4");
    assert_eq!(result.tracks[0].analysis.min_note, Some(61));
    assert_eq!(result.tracks[0].analysis.max_note, Some(90));
}

#[test]
fn malformed_bytes_are_an_error() {
    assert!(matches!(
        analyze_midi_file(b"RIFFxxxx", 48, 83, "none"),
        Err(AnalyzeError::Malformed(_))
    ));
}

#[test]
fn timecode_timing_is_not_supported() {
    let mut bytes = header(1, 1, [0xe7, 0x28]);
    bytes.extend(track_chunk(&[(0, vec![0x90, 60, 64]), (10, vec![0x80, 60, 0])]));
    assert_eq!(decode_midi(&bytes).unwrap().timing, Timing::Timecode);
    assert_eq!(analyze_midi_file(&bytes, 48, 83, "none"), Err(AnalyzeError::UnsupportedTiming));
}

#[test]
fn track_that_runs_past_32_bits_of_ticks_is_an_error() {
    let mut bytes = header(1, 1, [0x01, 0xe0]);
    let events: Vec<(u32, Vec<u8>)> = (0..17).map(|_| (0x0fff_ffff, vec![0xb0, 7, 100])).collect();
    bytes.extend(track_chunk(&events));
    assert_eq!(analyze_midi_file(&bytes, 48, 83, "none"), Err(AnalyzeError::TickOverflow));
}

#[test]
fn timecode_is_reported_before_tick_overflow() {
    let mut bytes = header(1, 1, [0xe7, 0x28]);
    let events: Vec<(u32, Vec<u8>)> = (0..17).map(|_| (0x0fff_ffff, vec![0xb0, 7, 100])).collect();
    bytes.extend(track_chunk(&events));
    assert_eq!(analyze_midi_file(&bytes, 48, 83, "none"), Err(AnalyzeError::UnsupportedTiming));
}

#[test]
fn track_at_the_edge_of_32_bits_is_analysed() {
    let mut bytes = header(1, 1, [0x01, 0xe0]);
    let mut events: Vec<(u32, Vec<u8>)> =
        (0..15).map(|_| (0x0fff_ffff, vec![0xb0, 7, 100])).collect();
    events.push((0x0fff_ffff, vec![0x90, 60, 64]));
    events.push((15, vec![0x80, 60, 0]));
    bytes.extend(track_chunk(&events));
    let result = analyze_midi_file(&bytes, 48, 83, "none").unwrap();
    assert_eq!(result.events.len(), 2);
    assert_eq!(result.events[1].time, u32::MAX as u64 * 500_000);
    assert_eq!(result.events[0].duration, 15 * 500_000);
}

#[test]
fn tempo_events_of_any_track_shape_the_times_of_all() {
    let tracks = vec![
        vec![on(0, 0, 60, 64), off(480, 0, 60)],
        vec![event(240, EventKind::Tempo(1_000_000))],
    ];
    let result = analyze_tracks(&tracks, 480, 48, 83, BlackKeyMode::Keep);
    assert_eq!(result.events[0].time, 0);
    assert_eq!(result.events[1].time, 240 * 500_000 + 240 * 1_000_000);
    assert_eq!(seconds(result.events[1].time, 480), 0.75);
}

#[test]
fn tracks_without_notes_get_no_info() {
    let tracks = vec![
        vec![event(0, EventKind::Tempo(500_000))],
        vec![on(0, 0, 60, 0), off(1, 0, 60)],
        vec![on(0, 0, 62, 1)],
    ];
    let result = analyze_tracks(&tracks, 96, 48, 83, BlackKeyMode::Keep);
    assert_eq!(result.events, vec![]);
    assert_eq!(result.tracks.len(), 1);
    assert_eq!(result.tracks[0].id, 2);
    assert_eq!(result.tracks[0].name, "Track 2");
    assert_eq!(result.tracks[0].note_count, 1);
    assert_eq!(result.analysis.min_note, None);
    assert_eq!(result.analysis.min_note_name, "");
}

#[test]
fn track_counts_dangling_note_ons_that_the_timeline_drops() {
    let tracks = vec![vec![on(0, 0, 40, 1), on(0, 0, 60, 1), off(10, 0, 60)]];
    let result = analyze_tracks(&tracks, 96, 48, 83, BlackKeyMode::Keep);
    assert_eq!(result.events.len(), 2);
    assert_eq!(result.analysis.min_note, Some(60));
    assert_eq!(result.analysis.under_min_count, 0);
    assert_eq!(result.tracks[0].note_count, 2);
    assert_eq!(result.tracks[0].analysis.min_note, Some(40));
    assert_eq!(result.tracks[0].analysis.lower_over_limit, 1);
}

#[test]
fn scan_finds_name_keys_and_tempo_changes() {
    let events = vec![
        event(10, EventKind::TrackName(b"First".to_vec())),
        event(10, EventKind::Tempo(123)),
        on(10, 0, 60, 1),
        event(0, EventKind::TrackName(vec![0xff, 0xfe])),
        on(10, 0, 61, 0),
        event(10, EventKind::TrackName("Zweite Stimme ü".as_bytes().to_vec())),
        on(0, 5, 62, 9),
        event(50, EventKind::Tempo(456)),
    ];
    let mut changes = vec![TempoChange { tick: 1, micros_per_beat: 2 }];
    let scan = scan_track(&events, 3, &mut changes);
    assert_eq!(scan.name, "Zweite Stimme ü");
    assert_eq!(scan.keys, vec![60, 62]);
    assert_eq!(
        changes,
        vec![
            TempoChange { tick: 1, micros_per_beat: 2 },
            TempoChange { tick: 20, micros_per_beat: 123 },
            TempoChange { tick: 100, micros_per_beat: 456 },
        ]
    );
}

#[test]
fn name_that_is_not_utf8_leaves_the_earlier_name() {
    let events = vec![
        event(0, EventKind::TrackName(b"Lead".to_vec())),
        event(0, EventKind::TrackName(vec![0xc3, 0x28])),
    ];
    let mut changes = Vec::new();
    assert_eq!(scan_track(&events, 0, &mut changes).name, "Lead");
    let unnamed = vec![event(0, EventKind::TrackName(vec![0x80]))];
    assert_eq!(scan_track(&unnamed, 12, &mut changes).name, "Track 12");
    assert_eq!(scan_track(&vec![], 0, &mut changes).name, "Track 0");
}

#[test]
fn black_key_mode_touches_only_the_note() {
    let make = |note: u8, kind: NoteKind| MidiEvent {
        time: 1,
        kind,
        note,
        channel: 2,
        track: 3,
        velocity: 4,
        duration: 5,
        end: 6,
    };
    let mut events = vec![make(61, NoteKind::NoteOn), make(61, NoteKind::NoteOff), make(64, NoteKind::NoteOn)];
    let before = events.clone();
    apply_black_key_mode(&mut events, BlackKeyMode::Keep);
    assert_eq!(events, before);
    apply_black_key_mode(&mut events, BlackKeyMode::AutoSharp);
    assert_eq!(
        events,
        vec![make(60, NoteKind::NoteOn), make(60, NoteKind::NoteOff), make(64, NoteKind::NoteOn)]
    );
    apply_black_key_mode(&mut events, BlackKeyMode::AutoSharp);
    assert_eq!(events[0].note, 60);
}

#[test]
fn sounding_notes_are_those_of_note_on_events() {
    let make = |note: u8, kind: NoteKind| MidiEvent {
        time: 0,
        kind,
        note,
        channel: 0,
        track: 0,
        velocity: 0,
        duration: 0,
        end: 0,
    };
    let events = vec![make(1, NoteKind::NoteOn), make(2, NoteKind::NoteOff), make(3, NoteKind::NoteOn)];
    assert_eq!(collect_sounding_notes(&events), vec![1, 3]);
}
