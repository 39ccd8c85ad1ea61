use midi_playback::analysis::{analyze_midi_file, AnalyzeError};
use midi_playback::decode::{decode_midi, DecodeError, Timing};
use midi_playback::guard::{find_riff_payload, find_smf_region, timecode_overflows, walk_finds_overflow};

fn chunk(id: &[u8; 4], data: &[u8]) -> Vec<u8> {
    let mut bytes = id.to_vec();
    bytes.extend_from_slice(&(data.len() as u32).to_be_bytes());
    bytes.extend_from_slice(data);
    bytes
}

fn header(format: u16, tracks: u16, division: [u8; 2]) -> Vec<u8> {
    let mut data = format.to_be_bytes().to_vec();
    data.extend_from_slice(&tracks.to_be_bytes());
    data.extend_from_slice(&division);
    chunk(b"MThd", &data)
}

fn note_track() -> Vec<u8> {
    chunk(b"MTrk", &[0, 0x90, 60, 64, 10, 0x80, 60, 0, 0, 0xff, 0x2f, 0])
}

fn riff(form: &[u8; 4], chunks: &[(&[u8; 4], Vec<u8>)]) -> Vec<u8> {
    let mut body = form.to_vec();
    for (id, data) in chunks {
        body.extend_from_slice(*id);
        body.extend_from_slice(&(data.len() as u32).to_le_bytes());
        body.extend_from_slice(data);
        if data.len() % 2 == 1 {
            body.push(0);
        }
    }
    let mut bytes = b"RIFF".to_vec();
    bytes.extend_from_slice(&(body.len() as u32).to_le_bytes());
    bytes.extend(body);
    bytes
}

#[test]
fn timecode_byte_0x80_is_refused_before_parsing() {
    let bytes = header(0, 1, [0x80, 0x00]);
    assert_eq!(bytes, vec![0x4D, 0x54, 0x68, 0x64, 0, 0, 0, 6, 0, 0, 0, 1, 0x80, 0]);
    assert!(timecode_overflows(&bytes));
    assert!(matches!(decode_midi(&bytes), Err(DecodeError::Malformed(_))));
    assert!(matches!(
        analyze_midi_file(&bytes, 48, 83, "none"),
        Err(AnalyzeError::Malformed(_))
    ));
}

#[test]
fn timecode_byte_0x80_is_refused_with_tracks_behind_it() {
    let mut bytes = header(1, 1, [0x80, 0x28]);
    bytes.extend(note_track());
    assert!(timecode_overflows(&bytes));
    assert!(matches!(decode_midi(&bytes), Err(DecodeError::Malformed(_))));
}

#[test]
fn known_frame_rates_pass_the_guard() {
    for upper in [0xE8u8, 0xE7, 0xE3, 0xE2] {
        let mut bytes = header(1, 1, [upper, 40]);
        bytes.extend(note_track());
        assert!(!timecode_overflows(&bytes));
        assert_eq!(decode_midi(&bytes).unwrap().timing, Timing::Timecode);
    }
}

#[test]
fn unknown_frame_rates_fail_in_the_parser() {
    for upper in [0x81u8, 0xC0, 0xE9, 0xFF] {
        let mut bytes = header(1, 1, [upper, 40]);
        bytes.extend(note_track());
        assert!(!timecode_overflows(&bytes));
        assert!(matches!(decode_midi(&bytes), Err(DecodeError::Malformed(_))));
    }
}

#[test]
fn metrical_files_pass_the_guard() {
    let mut bytes = header(1, 1, [0x7f, 0xff]);
    bytes.extend(note_track());
    assert!(!timecode_overflows(&bytes));
    assert_eq!(decode_midi(&bytes).unwrap().timing, Timing::Metrical(0x7fff));
}

#[test]
fn header_with_a_bad_format_never_reaches_its_timing() {
    let bytes = header(3, 1, [0x80, 0x00]);
    assert!(!timecode_overflows(&bytes));
    assert!(matches!(decode_midi(&bytes), Err(DecodeError::Malformed(_))));
}

#[test]
fn short_header_never_reaches_its_timing() {
    let bytes = chunk(b"MThd", &[0, 0, 0, 1, 0x80]);
    assert!(!timecode_overflows(&bytes));
    assert!(matches!(decode_midi(&bytes), Err(DecodeError::Malformed(_))));
    let mut cut = header(0, 1, [0x80, 0x00]);
    cut.truncate(13);
    assert!(!timecode_overflows(&cut));
    assert!(matches!(decode_midi(&cut), Err(DecodeError::Malformed(_))));
}

#[test]
fn second_header_with_byte_0x80_is_refused() {
    let mut bytes = header(1, 1, [0x01, 0xe0]);
    bytes.extend(note_track());
    bytes.extend(header(1, 1, [0x80, 0x00]));
    assert!(timecode_overflows(&bytes));
    assert!(matches!(decode_midi(&bytes), Err(DecodeError::Malformed(_))));
}

#[test]
fn chunks_behind_a_rejected_header_are_never_read() {
    let mut bytes = header(1, 1, [0x01, 0xe0]);
    bytes.extend(note_track());
    bytes.extend(header(9, 1, [0x01, 0xe0]));
    bytes.extend(header(1, 1, [0x80, 0x00]));
    bytes.extend(note_track());
    assert!(!timecode_overflows(&bytes));
    let file = decode_midi(&bytes).unwrap();
    assert_eq!(file.tracks.len(), 1);
}

#[test]
fn unknown_chunks_are_stepped_over() {
    let mut bytes = chunk(b"JUNK", &[1, 2, 3]);
    bytes.extend(header(0, 1, [0x80, 0x00]));
    assert!(timecode_overflows(&bytes[..]) == false);
    let mut file = header(1, 1, [0x00, 0x60]);
    file.extend(chunk(b"JUNK", &[0x4D, 0x54, 0x68, 0x64]));
    file.extend(header(0, 1, [0x80, 0x00]));
    assert!(timecode_overflows(&file));
}

#[test]
fn header_id_inside_a_track_is_no_header() {
    let mut text = vec![0, 0xff, 0x01, 14];
    text.extend_from_slice(&[0x4D, 0x54, 0x68, 0x64, 0, 0, 0, 6, 0, 0, 0, 1, 0x80, 0]);
    text.extend_from_slice(&[0, 0x90, 60, 64, 10, 0x80, 60, 0, 0, 0xff, 0x2f, 0]);
    let mut bytes = header(1, 1, [0x00, 0x60]);
    bytes.extend(chunk(b"MTrk", &text));
    assert!(!timecode_overflows(&bytes));
    let file = decode_midi(&bytes).unwrap();
    assert_eq!(file.tracks.len(), 1);
    assert_eq!(file.tracks[0].len(), 4);
}

#[test]
fn chunk_length_past_the_end_takes_what_is_left() {
    let mut bytes = header(1, 1, [0x00, 0x60]);
    bytes.extend_from_slice(b"MTrk");
    bytes.extend_from_slice(&[0xff, 0xff, 0xff, 0xff]);
    bytes.extend(header(0, 1, [0x80, 0x00]));
    assert!(!timecode_overflows(&bytes));
    assert!(decode_midi(&bytes).is_ok());
}

#[test]
fn riff_wrapped_file_is_searched_in_its_data_chunk() {
    let mut good = header(1, 1, [0x01, 0xe0]);
    good.extend(note_track());
    let wrapped = riff(b"RMID", &[(b"LIST", vec![1, 2, 3]), (b"data", good)]);
    assert!(!timecode_overflows(&wrapped));
    let file = decode_midi(&wrapped).unwrap();
    assert_eq!(file.timing, Timing::Metrical(480));
    assert_eq!(file.tracks.len(), 1);

    let bad = riff(b"RMID", &[(b"LIST", vec![1, 2, 3]), (b"data", header(0, 1, [0x80, 0]))]);
    assert!(timecode_overflows(&bad));
    assert!(matches!(decode_midi(&bad), Err(DecodeError::Malformed(_))));
}

#[test]
fn riff_file_of_another_form_is_not_searched() {
    let other = riff(b"WAVE", &[(b"data", header(0, 1, [0x80, 0]))]);
    assert!(!timecode_overflows(&other));
    assert!(matches!(decode_midi(&other), Err(DecodeError::Malformed(_))));
    let no_data = riff(b"RMID", &[(b"LIST", header(0, 1, [0x80, 0]))]);
    assert!(!timecode_overflows(&no_data));
    assert!(matches!(decode_midi(&no_data), Err(DecodeError::Malformed(_))));
}

#[test]
fn bytes_that_are_no_file_pass_the_guard() {
    assert!(!timecode_overflows(&[]));
    assert!(!timecode_overflows(b"MTh"));
    assert!(!timecode_overflows(b"RIFF"));
    assert!(!timecode_overflows(b"hello, world: MThd........\x80"));
    assert!(matches!(decode_midi(b"RIFF"), Err(DecodeError::Malformed(_))));
}

#[test]
fn region_of_a_plain_file_is_all_of_it() {
    let bytes = header(1, 0, [0, 96]);
    assert_eq!(find_smf_region(&bytes), Some((0, 14)));
    assert_eq!(find_smf_region(b"MTrk\0\0\0\0"), None);
    assert!(!walk_finds_overflow(&bytes, 0, 14));
    assert!(walk_finds_overflow(&header(2, 0, [0x80, 1]), 0, 14));
}

#[test]
fn riff_chunks_are_padded_to_even_length() {
    let wrapped = riff(b"RMID", &[(b"odd_", vec![7]), (b"data", vec![1, 2, 3, 4, 5])]);
    assert_eq!(find_smf_region(&wrapped), Some((30, 35)));
    assert_eq!(find_riff_payload(&wrapped, 12, wrapped.len()), Some((30, 35)));
    assert_eq!(find_riff_payload(&wrapped, 12, 20), None);
}
