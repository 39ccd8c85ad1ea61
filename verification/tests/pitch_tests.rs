use midi_playback::pitch::{
    black_key_mode_from_name, get_note_group, get_note_name, is_black_key, is_white_key,
    nearest_white_pc, remap_black_key, BlackKeyMode,
};

#[test]
fn nearest_white_of_f_sharp_is_f() {
    assert_eq!(nearest_white_pc(6), 5);
    assert_ne!(nearest_white_pc(6), 7);
}

#[test]
fn nearest_white_of_c_sharp_is_c() {
    assert_eq!(nearest_white_pc(1), 0);
}

#[test]
fn every_black_key_snaps_one_semitone_down() {
    assert_eq!(nearest_white_pc(3), 2);
    assert_eq!(nearest_white_pc(8), 7);
    assert_eq!(nearest_white_pc(10), 9);
}

#[test]
fn white_pitch_class_is_unchanged() {
    for pc in [0u8, 2, 4, 5, 7, 9, 11] {
        assert_eq!(nearest_white_pc(pc), pc);
    }
}

#[test]
fn pitch_class_is_taken_modulo_twelve() {
    assert_eq!(nearest_white_pc(18), 5);
    assert_eq!(nearest_white_pc(12), 0);
    assert_eq!(nearest_white_pc(255), 2);
}

#[test]
fn black_and_white_keys_part_the_octave() {
    let black: Vec<u8> = (0..12).filter(|&pc| is_black_key(pc)).collect();
    let white: Vec<u8> = (0..12).filter(|&pc| is_white_key(pc)).collect();
    assert_eq!(black, vec![1, 3, 6, 8, 10]);
    assert_eq!(white, vec![0, 2, 4, 5, 7, 9, 11]);
}

#[test]
fn remap_keeps_the_octave() {
    assert_eq!(remap_black_key(61), 60);
    assert_eq!(remap_black_key(66), 65);
    assert_eq!(remap_black_key(60), 60);
    assert_eq!(remap_black_key(1), 0);
    assert_eq!(remap_black_key(255), 254);
    assert_eq!(remap_black_key(127), 127);
}

#[test]
fn remap_is_idempotent_on_every_note() {
    for note in 0u8..=255 {
        let once = remap_black_key(note);
        assert_eq!(remap_black_key(once), once);
        assert!(is_white_key(once % 12));
    }
}

#[test]
fn mode_is_read_from_its_name() {
    assert_eq!(black_key_mode_from_name("auto_sharp"), BlackKeyMode::AutoSharp);
    assert_eq!(black_key_mode_from_name("none"), BlackKeyMode::Keep);
    assert_eq!(black_key_mode_from_name(""), BlackKeyMode::Keep);
    assert_eq!(black_key_mode_from_name("AUTO_SHARP"), BlackKeyMode::Keep);
    assert_eq!(black_key_mode_from_name("auto_sharp "), BlackKeyMode::Keep);
    assert_eq!(black_key_mode_from_name("auto_sharX"), BlackKeyMode::Keep);
}

#[test]
fn note_names_hold_pitch_and_octave() {
    assert_eq!(get_note_name(60), "C4");
    assert_eq!(get_note_name(61), "C#4");
    assert_eq!(get_note_name(69), "A4");
    assert_eq!(get_note_name(0), "C-1");
    assert_eq!(get_note_name(11), "B-1");
    assert_eq!(get_note_name(12), "C0");
    assert_eq!(get_note_name(127), "G9");
    assert_eq!(get_note_name(132), "C10");
    assert_eq!(get_note_name(255), "D#20");
}

#[test]
fn note_names_follow_the_chromatic_scale() {
    let names: Vec<String> = (48u8..60).map(get_note_name).collect();
    assert_eq!(
        names,
        vec!["C3", "C#3", "D3", "D#3", "E3", "F3", "F#3", "G3", "G#3", "A3", "A#3", "B3"]
    );
}

#[test]
fn note_groups_cover_the_piano() {
    assert_eq!(get_note_group(20), "未知");
    assert_eq!(get_note_group(21), "大字二组 (A₂-B₂)");
    assert_eq!(get_note_group(23), "大字二组 (A₂-B₂)");
    assert_eq!(get_note_group(24), "大字一组 (C₁-B₁)");
    assert_eq!(get_note_group(35), "大字一组 (C₁-B₁)");
    assert_eq!(get_note_group(36), "大字组 (C-B)");
    assert_eq!(get_note_group(47), "大字组 (C-B)");
    assert_eq!(get_note_group(48), "小字组 (c-b)");
    assert_eq!(get_note_group(59), "小字组 (c-b)");
    assert_eq!(get_note_group(60), "小字一组 (c¹-b¹)");
    assert_eq!(get_note_group(71), "小字一组 (c¹-b¹)");
    assert_eq!(get_note_group(72), "小字二组 (c²-b²)");
    assert_eq!(get_note_group(83), "小字二组 (c²-b²)");
    assert_eq!(get_note_group(84), "小字三组 (c³-b³)");
    assert_eq!(get_note_group(95), "小字三组 (c³-b³)");
    assert_eq!(get_note_group(96), "小字四组 (c⁴-b⁴)");
    assert_eq!(get_note_group(107), "小字四组 (c⁴-b⁴)");
    assert_eq!(get_note_group(108), "小字五组 (c⁵)");
    assert_eq!(get_note_group(109), "未知");
    assert_eq!(get_note_group(0), "未知");
    assert_eq!(get_note_group(255), "未知");
}
