//! Pitch classes, the black-key remap, and note names.

use vstd::prelude::*;
use vstd::string::StringExecFns;
use crate::text::{push_decimal, signed_decimal, text_equals};

verus! {

/// The white-key pitch classes C, D, E, F, G, A, B.
pub open spec fn is_white_pc(pc: int) -> bool {
    pc == 0 || pc == 2 || pc == 4 || pc == 5 || pc == 7 || pc == 9 || pc == 11
}

/// The black-key pitch classes C#, D#, F#, G#, A#.
pub open spec fn is_black_pc(pc: int) -> bool {
    pc == 1 || pc == 3 || pc == 6 || pc == 8 || pc == 10
}

/// Absolute distance between two pitch classes, without wrapping round the octave.
pub open spec fn pc_distance(a: int, b: int) -> int {
    if a >= b {
        a - b
    } else {
        b - a
    }
}

/// `w` is the white pitch class nearest to `pc`; of two at the same distance
/// the lower one counts as nearest.
pub open spec fn is_nearest_white(pc: int, w: int) -> bool {
    &&& is_white_pc(w)
    &&& forall|v: int| is_white_pc(v) ==> pc_distance(pc, w) <= pc_distance(pc, v)
    &&& forall|v: int| is_white_pc(v) && v < w ==> pc_distance(pc, w) < pc_distance(pc, v)
}

/// The nearest white pitch class in closed form: a black key snaps one
/// semitone down, a white key stays.
pub open spec fn nearest_white(pc: int) -> int {
    if is_black_pc(pc) {
        pc - 1
    } else {
        pc
    }
}

/// The closed form is the nearest white pitch class, and the only one.
pub proof fn lemma_nearest_white(pc: int, w: int)
    requires
        0 <= pc < 12,
    ensures
        is_nearest_white(pc, nearest_white(pc)),
        is_nearest_white(pc, w) ==> w == nearest_white(pc),
{
    let n = nearest_white(pc);
    assert(is_white_pc(n));
    if is_nearest_white(pc, w) && w != n {
        if w < n {
            assert(pc_distance(pc, n) < pc_distance(pc, w));
            assert(pc_distance(pc, w) <= pc_distance(pc, n));
        } else {
            assert(pc_distance(pc, w) < pc_distance(pc, n));
        }
    }
}

/// Whether a pitch class (0 to 11) is a white key.
pub fn is_white_key(pc: u8) -> (b: bool)
    ensures
        b == is_white_pc(pc as int),
{
    pc == 0 || pc == 2 || pc == 4 || pc == 5 || pc == 7 || pc == 9 || pc == 11
}

/// Whether a pitch class (0 to 11) is a black key.
pub fn is_black_key(pc: u8) -> (b: bool)
    ensures
        b == is_black_pc(pc as int),
{
    pc == 1 || pc == 3 || pc == 6 || pc == 8 || pc == 10
}

/// Finds the white pitch class nearest to `pc` (taken modulo 12) by scanning
/// the white keys in ascending order and keeping the first of least distance.
pub fn nearest_white_pc(pc: u8) -> (w: u8)
    ensures
        w == nearest_white((pc % 12) as int),
        is_nearest_white((pc % 12) as int, w as int),
{
    let pc: u8 = pc % 12;
    if is_white_key(pc) {
        proof {
            lemma_nearest_white(pc as int, pc as int);
        }
        return pc;
    }
    let whites: [u8; 7] = [0, 2, 4, 5, 7, 9, 11];
    let mut best_pc: u8 = 0;
    let mut best_dist: u8 = 12;
    let mut i: usize = 0;
    while i < 7
        invariant
            i <= 7,
            pc < 12,
            whites@ == seq![0u8, 2u8, 4u8, 5u8, 7u8, 9u8, 11u8],
            best_dist <= 12,
            i == 0 ==> best_dist == 12 && best_pc == 0,
            i > 0 ==> exists|k: int| 0 <= k < i && best_pc == whites@[k],
            i > 0 ==> best_dist == pc_distance(pc as int, best_pc as int),
            forall|k: int| 0 <= k < i ==> best_dist <= pc_distance(pc as int, whites@[k] as int),
            forall|k: int|
                0 <= k < i && whites@[k] < best_pc ==> best_dist < pc_distance(
                    pc as int,
                    whites@[k] as int,
                ),
        decreases 7 - i,
    {
        let white: u8 = whites[i];
        let dist: u8 = if pc >= white {
            pc - white
        } else {
            white - pc
        };
        if dist < best_dist {
            best_dist = dist;
            best_pc = white;
        }
        i = i + 1;
    }
    proof {
        assert forall|v: int| is_white_pc(v) implies exists|k: int|
            0 <= k < 7 && whites@[k] as int == v by {
            if v == 0 {
                assert(whites@[0] == 0);
            } else if v == 2 {
                assert(whites@[1] == 2);
            } else if v == 4 {
                assert(whites@[2] == 4);
            } else if v == 5 {
                assert(whites@[3] == 5);
            } else if v == 7 {
                assert(whites@[4] == 7);
            } else if v == 9 {
                assert(whites@[5] == 9);
            } else {
                assert(whites@[6] == 11);
            }
        }
        assert(is_white_pc(best_pc as int));
        assert(is_nearest_white(pc as int, best_pc as int));
        lemma_nearest_white(pc as int, best_pc as int);
    }
    best_pc
}

/// A note with its pitch class snapped to the nearest white key; the octave
/// stays.
pub open spec fn remapped_note(note: u8) -> u8 {
    let pc = (note % 12) as int;
    if is_black_pc(pc) {
        (note - pc + nearest_white(pc)) as u8
    } else {
        note
    }
}

/// Remapping is idempotent: a remapped note is on a white key, and a white
/// key stays where it is.
pub proof fn lemma_remap_idempotent(note: u8)
    ensures
        is_white_pc((remapped_note(note) % 12) as int),
        is_black_pc((note % 12) as int) ==> remapped_note(note) == note - 1,
        is_white_pc((note % 12) as int) ==> remapped_note(note) == note,
        remapped_note(remapped_note(note)) == remapped_note(note),
{
    let pc = (note % 12) as int;
    if is_black_pc(pc) {
        assert(note >= 1);
        assert((note - 1) % 12 == pc - 1);
    }
}

/// Snaps a note on a black key to the nearest white key of its octave.
pub fn remap_black_key(note: u8) -> (mapped: u8)
    ensures
        mapped == remapped_note(note),
{
    let pc: u8 = note % 12;
    if is_black_key(pc) {
        let new_pc: u8 = nearest_white_pc(pc);
        (note - pc) + new_pc
    } else {
        note
    }
}

/// How notes on black keys are treated.
#[derive(Clone, Copy, Debug, PartialEq, Eq, Structural)]
pub enum BlackKeyMode {
    /// Notes stay as written.
    Keep,
    /// Notes on black keys snap to the nearest white key.
    AutoSharp,
}

/// Reads a mode from its name: `"auto_sharp"` selects the remap, any other
/// name leaves notes as written.
pub fn black_key_mode_from_name(name: &str) -> (mode: BlackKeyMode)
    ensures
        mode == if name@ == "auto_sharp"@ {
            BlackKeyMode::AutoSharp
        } else {
            BlackKeyMode::Keep
        },
{
    if text_equals(name, "auto_sharp") {
        BlackKeyMode::AutoSharp
    } else {
        BlackKeyMode::Keep
    }
}

/// The name of a pitch class, sharps for the black keys.
pub open spec fn pitch_name(pc: int) -> Seq<char> {
    if pc == 0 {
        "C"@
    } else if pc == 1 {
        "C#"@
    } else if pc == 2 {
        "D"@
    } else if pc == 3 {
        "D#"@
    } else if pc == 4 {
        "E"@
    } else if pc == 5 {
        "F"@
    } else if pc == 6 {
        "F#"@
    } else if pc == 7 {
        "G"@
    } else if pc == 8 {
        "G#"@
    } else if pc == 9 {
        "A"@
    } else if pc == 10 {
        "A#"@
    } else {
        "B"@
    }
}

/// The name of a note: its pitch name and its octave, where note 60 is in
/// octave 4 and note 0 in octave -1.
pub open spec fn note_name(note: u8) -> Seq<char> {
    pitch_name((note % 12) as int) + signed_decimal(note / 12 - 1)
}

/// Writes the name of a note, such as `C4` or `F#-1`.
pub fn get_note_name(note: u8) -> (name: String)
    ensures
        name@ == note_name(note),
{
    let pitch: &'static str = match note % 12 {
        0 => "C",
        1 => "C#",
        2 => "D",
        3 => "D#",
        4 => "E",
        5 => "F",
        6 => "F#",
        7 => "G",
        8 => "G#",
        9 => "A",
        10 => "A#",
        _ => "B",
    };
    let mut name = String::from_str(pitch);
    if note < 12 {
        proof {
            reveal_strlit("-1");
            assert("-1"@ =~= signed_decimal(-1)) by {
                reveal_with_fuel(crate::text::decimal, 2);
            }
        }
        name.append("-1");
    } else {
        push_decimal(&mut name, (note / 12 - 1) as usize);
    }
    name
}

/// The octave group of a note, as named on the keyboard chart: notes 21 to
/// 108 fall in nine groups, any other note in none.
pub open spec fn note_group(note: u8) -> Seq<char> {
    if 21 <= note <= 23 {
        "大字二组 (A₂-B₂)"@
    } else if 24 <= note <= 35 {
        "大字一组 (C₁-B₁)"@
    } else if 36 <= note <= 47 {
        "大字组 (C-B)"@
    } else if 48 <= note <= 59 {
        "小字组 (c-b)"@
    } else if 60 <= note <= 71 {
        "小字一组 (c¹-b¹)"@
    } else if 72 <= note <= 83 {
        "小字二组 (c²-b²)"@
    } else if 84 <= note <= 95 {
        "小字三组 (c³-b³)"@
    } else if 96 <= note <= 107 {
        "小字四组 (c⁴-b⁴)"@
    } else if note == 108 {
        "小字五组 (c⁵)"@
    } else {
        "未知"@
    }
}

/// Writes the octave group of a note.
pub fn get_note_group(note: u8) -> (group: String)
    ensures
        group@ == note_group(note),
{
    let group: &'static str = if 21 <= note && note <= 23 {
        "大字二组 (A₂-B₂)"
    } else if 24 <= note && note <= 35 {
        "大字一组 (C₁-B₁)"
    } else if 36 <= note && note <= 47 {
        "大字组 (C-B)"
    } else if 48 <= note && note <= 59 {
        "小字组 (c-b)"
    } else if 60 <= note && note <= 71 {
        "小字一组 (c¹-b¹)"
    } else if 72 <= note && note <= 83 {
        "小字二组 (c²-b²)"
    } else if 84 <= note && note <= 95 {
        "小字三组 (c³-b³)"
    } else if 96 <= note && note <= 107 {
        "小字四组 (c⁴-b⁴)"
    } else if note == 108 {
        "小字五组 (c⁵)"
    } else {
        "未知"
    };
    String::from_str(group)
}

} // verus!
