//! MIDI analysis and timed input playback.
//!
//! The crate turns decoded MIDI tracks into an absolute-time note timeline
//! with range and transpose diagnostics, and holds the decision logic of a
//! cancelable, single-flight playback scheduler. The contracts are stated
//! over the spec functions that each module defines.
//!
//! The crate's own logic is verified. Ten small functions are believed
//! without proof: each holds one call into `midly`, `rand` or the standard
//! library, is marked `external_body`, and says in its doc comment what its
//! contract claims of the call. They are `sort_pairs` in `order`;
//! `parse_smf`, `parse_error_text`, `timing_of`, `track_count`,
//! `track_length` and `event_at` in `decode`; `utf8_text` in `analysis`;
//! `to_lowercase` in `keys`; and `random_between` in `pointer`.

pub mod analysis;
pub mod decode;
pub mod guard;
pub mod keys;
pub mod notes;
pub mod order;
pub mod picker;
pub mod pitch;
pub mod playback;
pub mod pointer;
pub mod range;
pub mod tempo;
pub mod text;
pub mod track;
pub mod transpose;
pub mod window;
