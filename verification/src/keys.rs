//! Key combinations: parsing a string such as `ctrl+a`, the key codes of the
//! platforms, and the plan of presses, pauses and releases that types it.

use vstd::prelude::*;
use vstd::string::{StrSliceExecFns, StringExecFns};
use crate::text::text_equals;

verus! {

/// A modifier key.
#[derive(Clone, Copy, Debug, PartialEq, Eq, Structural)]
pub enum Modifier {
    Shift,
    Control,
    Alt,
    Meta,
}

/// The platform whose key codes and conventions apply.
#[derive(Clone, Copy, Debug, PartialEq, Eq, Structural)]
pub enum Platform {
    Windows,
    MacOs,
    Other,
}

/// Why a key string could not be parsed.
#[derive(Clone, Debug, PartialEq, Eq)]
pub enum KeyError {
    /// A part before the last names no modifier; holds the part.
    UnknownModifier(String),
    /// The last part is not a single ASCII character; holds the part.
    InvalidMainKey(String),
}

/// What a [`KeyError`] holds, with the text as a character sequence.
pub enum KeyErrorView {
    UnknownModifier(Seq<char>),
    InvalidMainKey(Seq<char>),
}

impl View for KeyError {
    type V = KeyErrorView;

    open spec fn view(&self) -> KeyErrorView {
        match self {
            KeyError::UnknownModifier(part) => KeyErrorView::UnknownModifier(part@),
            KeyError::InvalidMainKey(part) => KeyErrorView::InvalidMainKey(part@),
        }
    }
}

/// The text of an error.
pub open spec fn error_message(error: KeyErrorView) -> Seq<char> {
    match error {
        KeyErrorView::UnknownModifier(part) => "Unknown modifier: "@ + part,
        KeyErrorView::InvalidMainKey(part) => "Invalid main key: "@ + part,
    }
}

impl KeyError {
    /// Writes the error out for the user.
    pub fn message(&self) -> (text: String)
        ensures
            text@ == error_message(self@),
    {
        match self {
            KeyError::UnknownModifier(part) => String::from_str("Unknown modifier: ").concat(
                part.as_str(),
            ),
            KeyError::InvalidMainKey(part) => String::from_str("Invalid main key: ").concat(
                part.as_str(),
            ),
        }
    }
}

/// The parts of `text` between its `+` signs. There is always at least one
/// part; parts may be empty.
pub open spec fn split_plus(text: Seq<char>) -> Seq<Seq<char>>
    decreases text.len(),
{
    if text.len() == 0 {
        seq![Seq::empty()]
    } else {
        let before = split_plus(text.drop_last());
        if text.last() == '+' {
            before.push(Seq::empty())
        } else {
            before.update(before.len() - 1, before.last().push(text.last()))
        }
    }
}

/// The character sequences of a list of string slices.
pub open spec fn texts(parts: Seq<&str>) -> Seq<Seq<char>> {
    Seq::new(parts.len(), |i: int| parts[i]@)
}

/// Splits a string at its `+` signs.
pub fn split_at_plus<'a>(text: &'a str) -> (parts: Vec<&'a str>)
    ensures
        texts(parts@) == split_plus(text@),
        parts@.len() > 0,
{
    let n: usize = text.unicode_len();
    let mut parts: Vec<&'a str> = Vec::new();
    let mut start: usize = 0;
    let mut i: usize = 0;
    proof {
        assert(text@.take(0) =~= Seq::<char>::empty());
        assert(texts(parts@).push(text@.subrange(0, 0)) =~= seq![Seq::<char>::empty()]);
    }
    while i < n
        invariant
            start <= i <= n,
            n == text@.len(),
            split_plus(text@.take(i as int)) == texts(parts@).push(
                text@.subrange(start as int, i as int),
            ),
        decreases n - i,
    {
        let ghost head = text@.take(i as int);
        let ghost next = text@.take(i + 1);
        proof {
            assert(next.drop_last() =~= head);
            assert(next.last() == text@[i as int]);
        }
        if text.get_char(i) == '+' {
            let ghost before = texts(parts@);
            let ghost part_start = start as int;
            parts.push(text.substring_char(start, i));
            start = i + 1;
            proof {
                assert(texts(parts@) =~= before.push(text@.subrange(part_start, i as int)));
                assert(text@.subrange(start as int, i + 1) =~= Seq::<char>::empty());
                assert(split_plus(next) =~= texts(parts@).push(Seq::empty()));
            }
        } else {
            proof {
                assert(text@.subrange(start as int, i + 1) =~= text@.subrange(
                    start as int,
                    i as int,
                ).push(text@[i as int]));
                assert(split_plus(next) =~= texts(parts@).push(
                    text@.subrange(start as int, i + 1),
                ));
            }
        }
        i = i + 1;
    }
    let ghost before = texts(parts@);
    parts.push(text.substring_char(start, n));
    proof {
        assert(text@.take(n as int) =~= text@);
        assert(texts(parts@) =~= before.push(text@.subrange(start as int, n as int)));
    }
    parts
}

/// The lower-case form of a text, as the standard library maps it.
pub uninterp spec fn lowercased(text: Seq<char>) -> Seq<char>;

/// Calls `str::to_lowercase`. The contract names the result: the
/// lower-case form depends on the text alone.
#[verifier::external_body]
fn to_lowercase(text: &str) -> (lower: String)
    ensures
        lower@ == lowercased(text@),
{
    text.to_lowercase()
}

/// The modifier that a lower-case name stands for. `ctrl` and `control`
/// stand for the command key on macOS and for the control key elsewhere.
pub open spec fn modifier_named(name: Seq<char>, platform: Platform) -> Option<Modifier> {
    if name == "shift"@ {
        Some(Modifier::Shift)
    } else if name == "ctrl"@ || name == "control"@ {
        Some(
            if platform == Platform::MacOs {
                Modifier::Meta
            } else {
                Modifier::Control
            },
        )
    } else if name == "alt"@ {
        Some(Modifier::Alt)
    } else if name == "meta"@ || name == "cmd"@ || name == "win"@ {
        Some(Modifier::Meta)
    } else {
        None
    }
}

/// Looks up the modifier that a lower-case name stands for.
pub fn modifier_from_name(name: &str, platform: Platform) -> (modifier: Option<Modifier>)
    ensures
        modifier == modifier_named(name@, platform),
{
    if text_equals(name, "shift") {
        Some(Modifier::Shift)
    } else if text_equals(name, "ctrl") || text_equals(name, "control") {
        match platform {
            Platform::MacOs => Some(Modifier::Meta),
            _ => Some(Modifier::Control),
        }
    } else if text_equals(name, "alt") {
        Some(Modifier::Alt)
    } else if text_equals(name, "meta") || text_equals(name, "cmd") || text_equals(name, "win") {
        Some(Modifier::Meta)
    } else {
        None
    }
}

/// The part is exactly one ASCII character: what one byte of UTF-8 holds.
pub open spec fn is_single_ascii(part: Seq<char>) -> bool {
    part.len() == 1 && part[0] as u32 <= 0x7f
}

/// The modifiers that the first `k` parts name, or the first of them that
/// names none. Names are matched in lower case.
pub open spec fn parsed_modifiers(parts: Seq<Seq<char>>, k: int, platform: Platform) -> Result<
    Seq<Modifier>,
    Seq<char>,
>
    decreases k,
{
    if k <= 0 {
        Ok(Seq::empty())
    } else {
        match parsed_modifiers(parts, k - 1, platform) {
            Err(part) => Err(part),
            Ok(modifiers) => match modifier_named(lowercased(parts[k - 1]), platform) {
                Some(modifier) => Ok(modifiers.push(modifier)),
                None => Err(parts[k - 1]),
            },
        }
    }
}

/// What a key string parses to: every part but the last names a modifier,
/// and the last part is the main key. The first part at fault, from the
/// left, decides the error.
pub open spec fn parsed_key(text: Seq<char>, platform: Platform) -> Result<
    (Seq<Modifier>, char),
    KeyErrorView,
> {
    let parts = split_plus(text);
    match parsed_modifiers(parts, parts.len() - 1, platform) {
        Err(part) => Err(KeyErrorView::UnknownModifier(part)),
        Ok(modifiers) => if is_single_ascii(parts.last()) {
            Ok((modifiers, parts.last()[0]))
        } else {
            Err(KeyErrorView::InvalidMainKey(parts.last()))
        },
    }
}

/// Parses a key string such as `a`, `shift+a` or `ctrl+alt+x` into its
/// modifiers and its main key.
pub fn parse_key_string(key_str: &str, platform: Platform) -> (parsed: Result<
    (Vec<Modifier>, Option<char>),
    KeyError,
>)
    ensures
        match parsed {
            Ok(keys) => keys.1 matches Some(main) && parsed_key(key_str@, platform) == Ok::<
                (Seq<Modifier>, char),
                KeyErrorView,
            >((keys.0@, main)),
            Err(error) => parsed_key(key_str@, platform) == Err::<
                (Seq<Modifier>, char),
                KeyErrorView,
            >(error@),
        },
{
    let parts = split_at_plus(key_str);
    let ghost names = texts(parts@);
    let last: usize = parts.len() - 1;
    let mut modifiers: Vec<Modifier> = Vec::new();
    let mut i: usize = 0;
    while i < last
        invariant
            i <= last,
            last == parts.len() - 1,
            names == texts(parts@),
            names == split_plus(key_str@),
            parsed_modifiers(names, i as int, platform) == Ok::<Seq<Modifier>, Seq<char>>(
                modifiers@,
            ),
        decreases last - i,
    {
        let part: &str = parts[i];
        assert(names[i as int] == part@);
        let lower = to_lowercase(part);
        match modifier_from_name(lower.as_str(), platform) {
            Some(modifier) => {
                modifiers.push(modifier);
            },
            None => {
                let error = KeyError::UnknownModifier(String::from_str(part));
                proof {
                    assert(parsed_modifiers(names, i + 1, platform) == Err::<
                        Seq<Modifier>,
                        Seq<char>,
                    >(part@));
                    lemma_modifier_error_stays(names, i + 1, last as int, platform);
                    assert(error@ == KeyErrorView::UnknownModifier(part@));
                }
                return Err(error);
            },
        }
        i = i + 1;
    }
    let part: &str = parts[last];
    assert(names[last as int] == part@);
    assert(names.last() == part@);
    if part.unicode_len() == 1 && part.get_char(0) as u32 <= 0x7f {
        Ok((modifiers, Some(part.get_char(0))))
    } else {
        Err(KeyError::InvalidMainKey(String::from_str(part)))
    }
}

/// Once a part names no modifier, later parts do not change the error.
proof fn lemma_modifier_error_stays(parts: Seq<Seq<char>>, at: int, k: int, platform: Platform)
    requires
        0 <= at <= k,
        parsed_modifiers(parts, at, platform) is Err,
    ensures
        parsed_modifiers(parts, k, platform) == parsed_modifiers(parts, at, platform),
    decreases k - at,
{
    if at < k {
        lemma_modifier_error_stays(parts, at, k - 1, platform);
    }
}

/// A letter in lower case; any other character as it is.
pub open spec fn ascii_lower(ch: char) -> char {
    if 'A' <= ch <= 'Z' {
        ((ch as u32) + 32) as char
    } else {
        ch
    }
}

/// Puts an ASCII letter into lower case.
pub fn to_ascii_lower(ch: char) -> (lower: char)
    ensures
        lower == ascii_lower(ch),
{
    if 'A' <= ch && ch <= 'Z' {
        ((ch as u8) + 32) as char
    } else {
        ch
    }
}

/// The macOS virtual key code of a letter or digit on the ANSI layout.
pub open spec fn macos_keycode(ch: char) -> Option<u16> {
    let c = ascii_lower(ch);
    if c == 'a' {
        Some(0x00u16)
    } else if c == 'b' {
        Some(0x0Bu16)
    } else if c == 'c' {
        Some(0x08u16)
    } else if c == 'd' {
        Some(0x02u16)
    } else if c == 'e' {
        Some(0x0Eu16)
    } else if c == 'f' {
        Some(0x03u16)
    } else if c == 'g' {
        Some(0x05u16)
    } else if c == 'h' {
        Some(0x04u16)
    } else if c == 'i' {
        Some(0x22u16)
    } else if c == 'j' {
        Some(0x26u16)
    } else if c == 'k' {
        Some(0x28u16)
    } else if c == 'l' {
        Some(0x25u16)
    } else if c == 'm' {
        Some(0x2Eu16)
    } else if c == 'n' {
        Some(0x2Du16)
    } else if c == 'o' {
        Some(0x1Fu16)
    } else if c == 'p' {
        Some(0x23u16)
    } else if c == 'q' {
        Some(0x0Cu16)
    } else if c == 'r' {
        Some(0x0Fu16)
    } else if c == 's' {
        Some(0x01u16)
    } else if c == 't' {
        Some(0x11u16)
    } else if c == 'u' {
        Some(0x20u16)
    } else if c == 'v' {
        Some(0x09u16)
    } else if c == 'w' {
        Some(0x0Du16)
    } else if c == 'x' {
        Some(0x07u16)
    } else if c == 'y' {
        Some(0x10u16)
    } else if c == 'z' {
        Some(0x06u16)
    } else if c == '0' {
        Some(0x1Du16)
    } else if c == '1' {
        Some(0x12u16)
    } else if c == '2' {
        Some(0x13u16)
    } else if c == '3' {
        Some(0x14u16)
    } else if c == '4' {
        Some(0x15u16)
    } else if c == '5' {
        Some(0x17u16)
    } else if c == '6' {
        Some(0x16u16)
    } else if c == '7' {
        Some(0x1Au16)
    } else if c == '8' {
        Some(0x1Cu16)
    } else if c == '9' {
        Some(0x19u16)
    } else {
        None
    }
}

/// Maps a letter or digit to its macOS virtual key code.
pub fn char_to_macos_keycode(ch: char) -> (code: Option<u16>)
    ensures
        code == macos_keycode(ch),
{
    match to_ascii_lower(ch) {
        'a' => Some(0x00),
        'b' => Some(0x0B),
        'c' => Some(0x08),
        'd' => Some(0x02),
        'e' => Some(0x0E),
        'f' => Some(0x03),
        'g' => Some(0x05),
        'h' => Some(0x04),
        'i' => Some(0x22),
        'j' => Some(0x26),
        'k' => Some(0x28),
        'l' => Some(0x25),
        'm' => Some(0x2E),
        'n' => Some(0x2D),
        'o' => Some(0x1F),
        'p' => Some(0x23),
        'q' => Some(0x0C),
        'r' => Some(0x0F),
        's' => Some(0x01),
        't' => Some(0x11),
        'u' => Some(0x20),
        'v' => Some(0x09),
        'w' => Some(0x0D),
        'x' => Some(0x07),
        'y' => Some(0x10),
        'z' => Some(0x06),
        '0' => Some(0x1D),
        '1' => Some(0x12),
        '2' => Some(0x13),
        '3' => Some(0x14),
        '4' => Some(0x15),
        '5' => Some(0x17),
        '6' => Some(0x16),
        '7' => Some(0x1A),
        '8' => Some(0x1C),
        '9' => Some(0x19),
        _ => None,
    }
}

/// The Windows scan code of a letter or digit.
pub open spec fn windows_scancode(ch: char) -> Option<u16> {
    let c = ascii_lower(ch);
    if c == 'a' {
        Some(0x1Eu16)
    } else if c == 'b' {
        Some(0x30u16)
    } else if c == 'c' {
        Some(0x2Eu16)
    } else if c == 'd' {
        Some(0x20u16)
    } else if c == 'e' {
        Some(0x12u16)
    } else if c == 'f' {
        Some(0x21u16)
    } else if c == 'g' {
        Some(0x22u16)
    } else if c == 'h' {
        Some(0x23u16)
    } else if c == 'i' {
        Some(0x17u16)
    } else if c == 'j' {
        Some(0x24u16)
    } else if c == 'k' {
        Some(0x25u16)
    } else if c == 'l' {
        Some(0x26u16)
    } else if c == 'm' {
        Some(0x32u16)
    } else if c == 'n' {
        Some(0x31u16)
    } else if c == 'o' {
        Some(0x18u16)
    } else if c == 'p' {
        Some(0x19u16)
    } else if c == 'q' {
        Some(0x10u16)
    } else if c == 'r' {
        Some(0x13u16)
    } else if c == 's' {
        Some(0x1Fu16)
    } else if c == 't' {
        Some(0x14u16)
    } else if c == 'u' {
        Some(0x16u16)
    } else if c == 'v' {
        Some(0x2Fu16)
    } else if c == 'w' {
        Some(0x11u16)
    } else if c == 'x' {
        Some(0x2Du16)
    } else if c == 'y' {
        Some(0x15u16)
    } else if c == 'z' {
        Some(0x2Cu16)
    } else if c == '0' {
        Some(0x0Bu16)
    } else if c == '1' {
        Some(0x02u16)
    } else if c == '2' {
        Some(0x03u16)
    } else if c == '3' {
        Some(0x04u16)
    } else if c == '4' {
        Some(0x05u16)
    } else if c == '5' {
        Some(0x06u16)
    } else if c == '6' {
        Some(0x07u16)
    } else if c == '7' {
        Some(0x08u16)
    } else if c == '8' {
        Some(0x09u16)
    } else if c == '9' {
        Some(0x0Au16)
    } else {
        None
    }
}

/// Maps a letter or digit to its Windows scan code.
pub fn char_to_windows_scancode(ch: char) -> (code: Option<u16>)
    ensures
        code == windows_scancode(ch),
{
    match to_ascii_lower(ch) {
        'a' => Some(0x1E),
        'b' => Some(0x30),
        'c' => Some(0x2E),
        'd' => Some(0x20),
        'e' => Some(0x12),
        'f' => Some(0x21),
        'g' => Some(0x22),
        'h' => Some(0x23),
        'i' => Some(0x17),
        'j' => Some(0x24),
        'k' => Some(0x25),
        'l' => Some(0x26),
        'm' => Some(0x32),
        'n' => Some(0x31),
        'o' => Some(0x18),
        'p' => Some(0x19),
        'q' => Some(0x10),
        'r' => Some(0x13),
        's' => Some(0x1F),
        't' => Some(0x14),
        'u' => Some(0x16),
        'v' => Some(0x2F),
        'w' => Some(0x11),
        'x' => Some(0x2D),
        'y' => Some(0x15),
        'z' => Some(0x2C),
        '0' => Some(0x0B),
        '1' => Some(0x02),
        '2' => Some(0x03),
        '3' => Some(0x04),
        '4' => Some(0x05),
        '5' => Some(0x06),
        '6' => Some(0x07),
        '7' => Some(0x08),
        '8' => Some(0x09),
        '9' => Some(0x0A),
        _ => None,
    }
}

/// The Windows scan code of the left-hand key of a modifier.
pub open spec fn modifier_scancode(modifier: Modifier) -> u16 {
    match modifier {
        Modifier::Shift => 0x2A,
        Modifier::Control => 0x1D,
        Modifier::Alt => 0x38,
        Modifier::Meta => 0x5B,
    }
}

/// Maps a modifier to the Windows scan code of its left-hand key.
pub fn modifier_to_windows_scancode(modifier: Modifier) -> (code: Option<u16>)
    ensures
        code == Some(modifier_scancode(modifier)),
{
    match modifier {
        Modifier::Shift => Some(0x2A),
        Modifier::Control => Some(0x1D),
        Modifier::Alt => Some(0x38),
        Modifier::Meta => Some(0x5B),
    }
}

/// Which way a key goes.
#[derive(Clone, Copy, Debug, PartialEq, Eq, Structural)]
pub enum Direction {
    Press,
    Release,
    Click,
}

/// One thing to do while typing a key combination.
#[derive(Clone, Copy, Debug, PartialEq, Eq, Structural)]
pub enum InputAction {
    /// Send a modifier key by its name.
    Key(Modifier, Direction),
    /// Send a raw key code or scan code.
    Raw(u16, Direction),
    /// Click the key that types this character.
    Unicode(char),
    /// Sleep for this many milliseconds.
    Pause(u64),
}

/// Pause after each modifier goes down, in milliseconds.
pub const MODIFIER_PRESS_PAUSE: u64 = 5;

/// Pause between the modifiers and the main key, either side, in
/// milliseconds.
pub const MODIFIER_GAP: u64 = 10;

/// How long the main key is held, in milliseconds.
pub const MAIN_KEY_HOLD: u64 = 20;

/// Pause after each modifier comes up, in milliseconds.
pub const MODIFIER_RELEASE_PAUSE: u64 = 30;

/// How a modifier is sent: by scan code on Windows, by name elsewhere.
pub open spec fn modifier_action(
    modifier: Modifier,
    direction: Direction,
    platform: Platform,
) -> InputAction {
    if platform == Platform::Windows {
        InputAction::Raw(modifier_scancode(modifier), direction)
    } else {
        InputAction::Key(modifier, direction)
    }
}

/// The modifiers go down in the order given, with a pause after each.
pub open spec fn press_all(modifiers: Seq<Modifier>, platform: Platform) -> Seq<InputAction>
    decreases modifiers.len(),
{
    if modifiers.len() == 0 {
        Seq::empty()
    } else {
        press_all(modifiers.drop_last(), platform) + seq![
            modifier_action(modifiers.last(), Direction::Press, platform),
            InputAction::Pause(MODIFIER_PRESS_PAUSE),
        ]
    }
}

/// The modifiers come up in reverse order, with a pause after each.
pub open spec fn release_all(modifiers: Seq<Modifier>, platform: Platform) -> Seq<InputAction>
    decreases modifiers.len(),
{
    if modifiers.len() == 0 {
        Seq::empty()
    } else {
        seq![
            modifier_action(modifiers.last(), Direction::Release, platform),
            InputAction::Pause(MODIFIER_RELEASE_PAUSE),
        ] + release_all(modifiers.drop_last(), platform)
    }
}

/// The pause that parts the modifiers from the main key, where there are
/// modifiers.
pub open spec fn modifier_gap(modifiers: Seq<Modifier>) -> Seq<InputAction> {
    if modifiers.len() > 0 {
        seq![InputAction::Pause(MODIFIER_GAP)]
    } else {
        Seq::empty()
    }
}

/// The code under which the platform knows a character, if it has one.
pub open spec fn platform_keycode(ch: char, platform: Platform) -> Option<u16> {
    match platform {
        Platform::MacOs => macos_keycode(ch),
        Platform::Windows => windows_scancode(ch),
        Platform::Other => None,
    }
}

/// The main key: pressed, held and released by its code where the platform
/// has one for it, clicked as a character where it has none.
pub open spec fn main_key_actions(main_key: Option<char>, platform: Platform) -> Seq<InputAction> {
    match main_key {
        Some(ch) => match platform_keycode(ch, platform) {
            Some(code) => seq![
                InputAction::Raw(code, Direction::Press),
                InputAction::Pause(MAIN_KEY_HOLD),
                InputAction::Raw(code, Direction::Release),
            ],
            None => seq![InputAction::Unicode(ch)],
        },
        None => Seq::empty(),
    }
}

/// The whole plan of a key combination: modifiers down, main key, modifiers
/// up in reverse.
pub open spec fn keypress_plan(
    modifiers: Seq<Modifier>,
    main_key: Option<char>,
    platform: Platform,
) -> Seq<InputAction> {
    press_all(modifiers, platform) + modifier_gap(modifiers) + main_key_actions(
        main_key,
        platform,
    ) + modifier_gap(modifiers) + release_all(modifiers, platform)
}

fn modifier_step(modifier: Modifier, direction: Direction, platform: Platform) -> (action:
    InputAction)
    ensures
        action == modifier_action(modifier, direction, platform),
{
    match platform {
        Platform::Windows => match modifier_to_windows_scancode(modifier) {
            Some(code) => InputAction::Raw(code, direction),
            None => InputAction::Key(modifier, direction),
        },
        _ => InputAction::Key(modifier, direction),
    }
}

/// Lays out the actions that type a key combination.
pub fn plan_keypress(modifiers: &Vec<Modifier>, main_key: Option<char>, platform: Platform) -> (plan:
    Vec<InputAction>)
    ensures
        plan@ == keypress_plan(modifiers@, main_key, platform),
{
    let n: usize = modifiers.len();
    let mut plan: Vec<InputAction> = Vec::new();
    let mut i: usize = 0;
    while i < n
        invariant
            i <= n,
            n == modifiers.len(),
            plan@ == press_all(modifiers@.take(i as int), platform),
        decreases n - i,
    {
        proof {
            assert(modifiers@.take(i + 1).drop_last() =~= modifiers@.take(i as int));
        }
        plan.push(modifier_step(modifiers[i], Direction::Press, platform));
        plan.push(InputAction::Pause(MODIFIER_PRESS_PAUSE));
        i = i + 1;
        assert(plan@ =~= press_all(modifiers@.take(i as int), platform));
    }
    assert(modifiers@.take(n as int) =~= modifiers@);
    if n > 0 {
        plan.push(InputAction::Pause(MODIFIER_GAP));
    }
    if let Some(ch) = main_key {
        let code = match platform {
            Platform::MacOs => char_to_macos_keycode(ch),
            Platform::Windows => char_to_windows_scancode(ch),
            Platform::Other => None,
        };
        match code {
            Some(code) => {
                plan.push(InputAction::Raw(code, Direction::Press));
                plan.push(InputAction::Pause(MAIN_KEY_HOLD));
                plan.push(InputAction::Raw(code, Direction::Release));
            },
            None => {
                plan.push(InputAction::Unicode(ch));
            },
        }
    }
    if n > 0 {
        plan.push(InputAction::Pause(MODIFIER_GAP));
    }
    let ghost head = plan@;
    assert(head =~= press_all(modifiers@, platform) + modifier_gap(modifiers@) + main_key_actions(
        main_key,
        platform,
    ) + modifier_gap(modifiers@));
    let mut left: usize = n;
    while left > 0
        invariant
            left <= n,
            n == modifiers.len(),
            plan@ + release_all(modifiers@.take(left as int), platform) == head + release_all(
                modifiers@,
                platform,
            ),
        decreases left,
    {
        proof {
            assert(modifiers@.take(left as int).drop_last() =~= modifiers@.take(left - 1));
            assert(modifiers@.take(left as int).last() == modifiers@[left - 1]);
        }
        let ghost before = plan@;
        left = left - 1;
        plan.push(modifier_step(modifiers[left], Direction::Release, platform));
        plan.push(InputAction::Pause(MODIFIER_RELEASE_PAUSE));
        assert(plan@ + release_all(modifiers@.take(left as int), platform) =~= before
            + release_all(modifiers@.take(left + 1), platform));
    }
    assert(plan@ =~= plan@ + release_all(modifiers@.take(0), platform));
    plan
}

/// What typing a key string comes to: the plan of its parsed keys, or the
/// error of parsing it.
pub open spec fn keypress_outcome(text: Seq<char>, platform: Platform) -> Result<
    Seq<InputAction>,
    KeyErrorView,
> {
    match parsed_key(text, platform) {
        Ok(keys) => Ok(keypress_plan(keys.0, Some(keys.1), platform)),
        Err(error) => Err(error),
    }
}

/// Plans the typing of a key string such as `ctrl+a`: parses it, and lays
/// out the presses, pauses and releases for the caller to perform in order.
pub fn simulate_keypress_smart(key_str: &str, platform: Platform) -> (planned: Result<
    Vec<InputAction>,
    KeyError,
>)
    ensures
        match planned {
            Ok(plan) => keypress_outcome(key_str@, platform) == Ok::<
                Seq<InputAction>,
                KeyErrorView,
            >(plan@),
            Err(error) => keypress_outcome(key_str@, platform) == Err::<
                Seq<InputAction>,
                KeyErrorView,
            >(error@),
        },
{
    match parse_key_string(key_str, platform) {
        Ok((modifiers, main_key)) => Ok(plan_keypress(&modifiers, main_key, platform)),
        Err(error) => Err(error),
    }
}

} // verus!
