//! Range statistics of a set of notes, and the per-track analysis that
//! follows from them.

use vstd::prelude::*;
use crate::pitch::{get_note_group, get_note_name, note_group, note_name};
use crate::transpose::{optimize_transpose_suggestion, suggestion};

verus! {

/// The lowest of `notes`, if there is any.
pub open spec fn lowest(notes: Seq<u8>) -> Option<u8>
    decreases notes.len(),
{
    if notes.len() == 0 {
        None
    } else {
        match lowest(notes.drop_last()) {
            Some(m) => Some(
                if notes.last() < m {
                    notes.last()
                } else {
                    m
                },
            ),
            None => Some(notes.last()),
        }
    }
}

/// The highest of `notes`, if there is any.
pub open spec fn highest(notes: Seq<u8>) -> Option<u8>
    decreases notes.len(),
{
    if notes.len() == 0 {
        None
    } else {
        match highest(notes.drop_last()) {
            Some(m) => Some(
                if notes.last() > m {
                    notes.last()
                } else {
                    m
                },
            ),
            None => Some(notes.last()),
        }
    }
}

/// How many of `notes` lie strictly below `limit`.
pub open spec fn count_below(notes: Seq<u8>, limit: u8) -> nat
    decreases notes.len(),
{
    if notes.len() == 0 {
        0
    } else {
        count_below(notes.drop_last(), limit) + if notes.last() < limit {
            1nat
        } else {
            0nat
        }
    }
}

/// How many of `notes` lie strictly above `limit`.
pub open spec fn count_above(notes: Seq<u8>, limit: u8) -> nat
    decreases notes.len(),
{
    if notes.len() == 0 {
        0
    } else {
        count_above(notes.drop_last(), limit) + if notes.last() > limit {
            1nat
        } else {
            0nat
        }
    }
}

/// The lowest and highest notes are notes of the list and bound all others;
/// an empty list has neither.
pub proof fn lemma_extremes(notes: Seq<u8>)
    ensures
        notes.len() == 0 <==> lowest(notes) is None,
        notes.len() == 0 <==> highest(notes) is None,
        lowest(notes) matches Some(m) ==> notes.contains(m) && forall|i: int|
            0 <= i < notes.len() ==> m <= #[trigger] notes[i],
        highest(notes) matches Some(m) ==> notes.contains(m) && forall|i: int|
            0 <= i < notes.len() ==> m >= #[trigger] notes[i],
    decreases notes.len(),
{
    if notes.len() > 0 {
        let rest = notes.drop_last();
        lemma_extremes(rest);
        let low = lowest(notes)->0;
        let high = highest(notes)->0;
        assert(notes.last() == notes[notes.len() - 1]);
        if low != notes.last() {
            let i = choose|i: int| 0 <= i < rest.len() && rest[i] == low;
            assert(notes[i] == low);
        }
        if high != notes.last() {
            let i = choose|i: int| 0 <= i < rest.len() && rest[i] == high;
            assert(notes[i] == high);
        }
        assert forall|i: int| 0 <= i < notes.len() implies low <= #[trigger] notes[i] by {
            if i < rest.len() {
                assert(rest[i] == notes[i]);
            }
        }
        assert forall|i: int| 0 <= i < notes.len() implies high >= #[trigger] notes[i] by {
            if i < rest.len() {
                assert(rest[i] == notes[i]);
            }
        }
    }
}

/// No count exceeds the number of notes, and where the lower limit does not
/// exceed the upper one, the two counts together do not either.
pub proof fn lemma_counts(notes: Seq<u8>, lower: u8, upper: u8)
    ensures
        count_below(notes, lower) <= notes.len(),
        count_above(notes, upper) <= notes.len(),
        lower <= upper ==> count_below(notes, lower) + count_above(notes, upper) <= notes.len(),
    decreases notes.len(),
{
    if notes.len() > 0 {
        lemma_counts(notes.drop_last(), lower, upper);
    }
}

/// The extremes of a list of notes and how many of them lie outside a range.
#[derive(Clone, Copy, Debug, PartialEq, Eq, Structural)]
pub struct NoteRange {
    pub min_note: Option<u8>,
    pub max_note: Option<u8>,
    pub under_count: usize,
    pub over_count: usize,
}

/// Finds the lowest and highest of `notes` and counts those strictly below
/// `lower` and strictly above `upper`.
pub fn note_range(notes: &Vec<u8>, lower: u8, upper: u8) -> (range: NoteRange)
    ensures
        range.min_note == lowest(notes@),
        range.max_note == highest(notes@),
        range.under_count == count_below(notes@, lower),
        range.over_count == count_above(notes@, upper),
{
    let mut min_note: Option<u8> = None;
    let mut max_note: Option<u8> = None;
    let mut under_count: usize = 0;
    let mut over_count: usize = 0;
    let mut i: usize = 0;
    while i < notes.len()
        invariant
            i <= notes.len(),
            min_note == lowest(notes@.take(i as int)),
            max_note == highest(notes@.take(i as int)),
            under_count == count_below(notes@.take(i as int), lower),
            over_count == count_above(notes@.take(i as int), upper),
        decreases notes.len() - i,
    {
        let note: u8 = notes[i];
        proof {
            let next = notes@.take(i + 1);
            assert(next.drop_last() =~= notes@.take(i as int));
            assert(next.last() == note);
            lemma_counts(next, lower, upper);
        }
        min_note =
        match min_note {
            Some(m) => Some(
                if note < m {
                    note
                } else {
                    m
                },
            ),
            None => Some(note),
        };
        max_note =
        match max_note {
            Some(m) => Some(
                if note > m {
                    note
                } else {
                    m
                },
            ),
            None => Some(note),
        };
        if note < lower {
            under_count = under_count + 1;
        }
        if note > upper {
            over_count = over_count + 1;
        }
        i = i + 1;
    }
    assert(notes@.take(i as int) =~= notes@);
    NoteRange { min_note, max_note, under_count, over_count }
}

/// Range diagnostics of one track.
#[derive(Clone, Debug, PartialEq, Eq)]
pub struct TrackAnalysis {
    pub max_note: Option<u8>,
    pub min_note: Option<u8>,
    pub max_note_name: String,
    pub min_note_name: String,
    pub max_note_group: String,
    pub min_note_group: String,
    pub upper_over_limit: usize,
    pub lower_over_limit: usize,
    pub is_max_over_limit: bool,
    pub is_min_over_limit: bool,
    pub suggested_max_transpose: Option<i32>,
    pub suggested_max_octave: Option<i32>,
    pub suggested_min_transpose: Option<i32>,
    pub suggested_min_octave: Option<i32>,
}

/// What a [`TrackAnalysis`] holds, with the texts as character sequences.
pub struct TrackAnalysisView {
    pub max_note: Option<u8>,
    pub min_note: Option<u8>,
    pub max_note_name: Seq<char>,
    pub min_note_name: Seq<char>,
    pub max_note_group: Seq<char>,
    pub min_note_group: Seq<char>,
    pub upper_over_limit: nat,
    pub lower_over_limit: nat,
    pub is_max_over_limit: bool,
    pub is_min_over_limit: bool,
    pub suggested_max_transpose: Option<int>,
    pub suggested_max_octave: Option<int>,
    pub suggested_min_transpose: Option<int>,
    pub suggested_min_octave: Option<int>,
}

/// An optional 32-bit integer as an optional integer.
pub open spec fn widened(v: Option<i32>) -> Option<int> {
    match v {
        Some(x) => Some(x as int),
        None => None,
    }
}

impl View for TrackAnalysis {
    type V = TrackAnalysisView;

    open spec fn view(&self) -> TrackAnalysisView {
        TrackAnalysisView {
            max_note: self.max_note,
            min_note: self.min_note,
            max_note_name: self.max_note_name@,
            min_note_name: self.min_note_name@,
            max_note_group: self.max_note_group@,
            min_note_group: self.min_note_group@,
            upper_over_limit: self.upper_over_limit as nat,
            lower_over_limit: self.lower_over_limit as nat,
            is_max_over_limit: self.is_max_over_limit,
            is_min_over_limit: self.is_min_over_limit,
            suggested_max_transpose: widened(self.suggested_max_transpose),
            suggested_max_octave: widened(self.suggested_max_octave),
            suggested_min_transpose: widened(self.suggested_min_transpose),
            suggested_min_octave: widened(self.suggested_min_octave),
        }
    }
}

/// The name of a note, or the empty text where there is no note.
pub open spec fn name_or_empty(note: Option<u8>) -> Seq<char> {
    match note {
        Some(n) => note_name(n),
        None => Seq::empty(),
    }
}

/// The octave group of a note, or the empty text where there is no note.
pub open spec fn group_or_empty(note: Option<u8>) -> Seq<char> {
    match note {
        Some(n) => note_group(n),
        None => Seq::empty(),
    }
}

/// A note lies outside the range from `limit_min` to `limit_max`.
pub open spec fn outside_limits(note: Option<u8>, limit_min: u8, limit_max: u8) -> bool {
    match note {
        Some(n) => n < limit_min || n > limit_max,
        None => false,
    }
}

/// The setting suggested for a boundary note that lies outside the range:
/// the one that makes up the distance from the note to `limit`, starting
/// from transpose 0 and octave 0.
pub open spec fn boundary_suggestion(outside: bool, note: Option<u8>, limit: u8) -> Option<
    (int, int),
> {
    match note {
        Some(n) => if outside {
            Some(suggestion(limit - n, 0, 0))
        } else {
            None
        },
        None => None,
    }
}

/// The first part of an optional pair.
pub open spec fn first_of(pair: Option<(int, int)>) -> Option<int> {
    match pair {
        Some(p) => Some(p.0),
        None => None,
    }
}

/// The second part of an optional pair.
pub open spec fn second_of(pair: Option<(int, int)>) -> Option<int> {
    match pair {
        Some(p) => Some(p.1),
        None => None,
    }
}

/// The analysis of a track whose opening note-ons carry `notes`, against the
/// playable range from `limit_min` to `limit_max`.
pub open spec fn track_analysis_of(notes: Seq<u8>, limit_min: u8, limit_max: u8) -> TrackAnalysisView {
    let max_note = highest(notes);
    let min_note = lowest(notes);
    let max_out = outside_limits(max_note, limit_min, limit_max);
    let min_out = outside_limits(min_note, limit_min, limit_max);
    let max_fix = boundary_suggestion(max_out, max_note, limit_max);
    let min_fix = boundary_suggestion(min_out, min_note, limit_min);
    TrackAnalysisView {
        max_note,
        min_note,
        max_note_name: name_or_empty(max_note),
        min_note_name: name_or_empty(min_note),
        max_note_group: group_or_empty(max_note),
        min_note_group: group_or_empty(min_note),
        upper_over_limit: count_above(notes, limit_max),
        lower_over_limit: count_below(notes, limit_min),
        is_max_over_limit: max_out,
        is_min_over_limit: min_out,
        suggested_max_transpose: first_of(max_fix),
        suggested_max_octave: second_of(max_fix),
        suggested_min_transpose: first_of(min_fix),
        suggested_min_octave: second_of(min_fix),
    }
}

/// Writes the name of a note, or the empty text where there is none.
pub fn name_of(note: Option<u8>) -> (name: String)
    ensures
        name@ == name_or_empty(note),
{
    match note {
        Some(n) => get_note_name(n),
        None => String::new(),
    }
}

/// Writes the octave group of a note, or the empty text where there is none.
pub fn group_of(note: Option<u8>) -> (group: String)
    ensures
        group@ == group_or_empty(note),
{
    match note {
        Some(n) => get_note_group(n),
        None => String::new(),
    }
}

/// Suggests a setting for a boundary note that lies outside the range.
pub fn suggest_for_boundary(outside: bool, note: Option<u8>, limit: u8) -> (fix: (
    Option<i32>,
    Option<i32>,
))
    ensures
        widened(fix.0) == first_of(boundary_suggestion(outside, note, limit)),
        widened(fix.1) == second_of(boundary_suggestion(outside, note, limit)),
{
    match note {
        Some(n) => {
            if outside {
                let diff: i32 = limit as i32 - n as i32;
                match optimize_transpose_suggestion(diff, 0, 0) {
                    Some((transpose, octave)) => (Some(transpose), Some(octave)),
                    None => (None, None),
                }
            } else {
                (None, None)
            }
        },
        None => (None, None),
    }
}

/// Analyses the notes of one track against the playable range.
pub fn analyze_track_notes(notes: &Vec<u8>, limit_min: u8, limit_max: u8) -> (analysis:
    TrackAnalysis)
    ensures
        analysis@ == track_analysis_of(notes@, limit_min, limit_max),
{
    let range = note_range(notes, limit_min, limit_max);
    let max_note = range.max_note;
    let min_note = range.min_note;
    let is_max_over_limit = match max_note {
        Some(n) => n > limit_max || n < limit_min,
        None => false,
    };
    let is_min_over_limit = match min_note {
        Some(n) => n < limit_min || n > limit_max,
        None => false,
    };
    let max_fix = suggest_for_boundary(is_max_over_limit, max_note, limit_max);
    let min_fix = suggest_for_boundary(is_min_over_limit, min_note, limit_min);
    TrackAnalysis {
        max_note,
        min_note,
        max_note_name: name_of(max_note),
        min_note_name: name_of(min_note),
        max_note_group: group_of(max_note),
        min_note_group: group_of(min_note),
        upper_over_limit: range.over_count,
        lower_over_limit: range.under_count,
        is_max_over_limit,
        is_min_over_limit,
        suggested_max_transpose: max_fix.0,
        suggested_max_octave: max_fix.1,
        suggested_min_transpose: min_fix.0,
        suggested_min_octave: min_fix.1,
    }
}

/// Range statistics of the whole file.
#[derive(Clone, Debug, PartialEq, Eq)]
pub struct AnalysisResult {
    pub min_note: Option<u8>,
    pub max_note: Option<u8>,
    pub under_min_count: usize,
    pub over_max_count: usize,
    pub min_note_name: String,
    pub max_note_name: String,
    pub total_over_limit_count: usize,
}

/// What an [`AnalysisResult`] holds, with the texts as character sequences.
pub struct AnalysisResultView {
    pub min_note: Option<u8>,
    pub max_note: Option<u8>,
    pub under_min_count: nat,
    pub over_max_count: nat,
    pub min_note_name: Seq<char>,
    pub max_note_name: Seq<char>,
    pub total_over_limit_count: nat,
}

impl View for AnalysisResult {
    type V = AnalysisResultView;

    open spec fn view(&self) -> AnalysisResultView {
        AnalysisResultView {
            min_note: self.min_note,
            max_note: self.max_note,
            under_min_count: self.under_min_count as nat,
            over_max_count: self.over_max_count as nat,
            min_note_name: self.min_note_name@,
            max_note_name: self.max_note_name@,
            total_over_limit_count: self.total_over_limit_count as nat,
        }
    }
}

/// The lower bound of the range that the file-wide statistics count against.
pub const GLOBAL_LOWER_LIMIT: u8 = 48;

/// The upper bound of the range that the file-wide statistics count against.
pub const GLOBAL_UPPER_LIMIT: u8 = 83;

/// The file-wide statistics of `notes`, counted against the fixed range.
pub open spec fn global_analysis_of(notes: Seq<u8>) -> AnalysisResultView {
    AnalysisResultView {
        min_note: lowest(notes),
        max_note: highest(notes),
        under_min_count: count_below(notes, GLOBAL_LOWER_LIMIT),
        over_max_count: count_above(notes, GLOBAL_UPPER_LIMIT),
        min_note_name: name_or_empty(lowest(notes)),
        max_note_name: name_or_empty(highest(notes)),
        total_over_limit_count: count_below(notes, GLOBAL_LOWER_LIMIT) + count_above(
            notes,
            GLOBAL_UPPER_LIMIT,
        ),
    }
}

/// Computes the file-wide statistics of `notes`.
pub fn analyze_all_notes(notes: &Vec<u8>) -> (analysis: AnalysisResult)
    ensures
        analysis@ == global_analysis_of(notes@),
{
    let range = note_range(notes, GLOBAL_LOWER_LIMIT, GLOBAL_UPPER_LIMIT);
    proof {
        lemma_counts(notes@, GLOBAL_LOWER_LIMIT, GLOBAL_UPPER_LIMIT);
        assert(range.under_count + range.over_count <= notes.len());
    }
    AnalysisResult {
        min_note: range.min_note,
        max_note: range.max_note,
        under_min_count: range.under_count,
        over_max_count: range.over_count,
        min_note_name: name_of(range.min_note),
        max_note_name: name_of(range.max_note),
        total_over_limit_count: range.under_count + range.over_count,
    }
}

} // verus!
