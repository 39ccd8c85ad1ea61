//! The decisions of the coordinate picker.
//!
//! The picker watches the pointer until the user clicks, and reports where.
//! This module decides, event by event, what becomes of each event and when
//! the pick is made; listening, waiting and the timeout belong to the caller.

use vstd::prelude::*;

verus! {

/// How long the caller waits for a click, in seconds.
pub const PICK_TIMEOUT_SECS: u64 = 30;

/// What the picker is told of an input event.
#[derive(Clone, Copy, Debug, PartialEq, Eq, Structural)]
pub enum PointerEvent {
    /// The pointer moved to this position.
    Move { x: i32, y: i32 },
    /// The left button went down.
    LeftPress,
    /// Anything else.
    Other,
}

/// What becomes of an event.
#[derive(Clone, Copy, Debug, PartialEq, Eq, Structural)]
pub enum PickDecision {
    /// The event goes on to the applications.
    Pass,
    /// The event is swallowed, and this position is the pick.
    Capture { x: i32, y: i32 },
}

/// The state of a pick: the last position seen, and whether the pick is
/// over. The position (0, 0) stands for "none seen yet".
#[derive(Clone, Copy, Debug, PartialEq, Eq, Structural)]
pub struct CoordinatePicker {
    pub last_x: i32,
    pub last_y: i32,
    pub stopped: bool,
}

/// Why a pick ended without a position.
#[derive(Clone, Copy, Debug, PartialEq, Eq, Structural)]
pub enum PickError {
    /// No click came within the timeout.
    Timeout,
}

/// The picker after an event, and what becomes of the event.
///
/// A picker that has stopped passes everything on. A move is remembered and
/// passed on. A left press makes the pick at the last position seen, is
/// swallowed, and stops the picker; but with no position seen yet it is
/// passed on and the pick goes on.
pub open spec fn after_event(picker: CoordinatePicker, event: PointerEvent) -> (
    CoordinatePicker,
    PickDecision,
) {
    if picker.stopped {
        (picker, PickDecision::Pass)
    } else {
        match event {
            PointerEvent::Move { x, y } => (
                CoordinatePicker { last_x: x, last_y: y, stopped: false },
                PickDecision::Pass,
            ),
            PointerEvent::LeftPress => if picker.last_x != 0 || picker.last_y != 0 {
                (
                    CoordinatePicker { stopped: true, ..picker },
                    PickDecision::Capture { x: picker.last_x, y: picker.last_y },
                )
            } else {
                (picker, PickDecision::Pass)
            },
            PointerEvent::Other => (picker, PickDecision::Pass),
        }
    }
}

/// The picker after a run of events.
pub open spec fn picker_after(picker: CoordinatePicker, events: Seq<PointerEvent>) -> CoordinatePicker
    decreases events.len(),
{
    if events.len() == 0 {
        picker
    } else {
        after_event(picker_after(picker, events.drop_last()), events.last()).0
    }
}

/// How many events of a run are swallowed.
pub open spec fn captures(picker: CoordinatePicker, events: Seq<PointerEvent>) -> nat
    decreases events.len(),
{
    if events.len() == 0 {
        0
    } else {
        captures(picker, events.drop_last()) + match after_event(
            picker_after(picker, events.drop_last()),
            events.last(),
        ).1 {
            PickDecision::Capture { x: _, y: _ } => 1nat,
            PickDecision::Pass => 0nat,
        }
    }
}

/// A pick swallows at most one event, and only the click that makes it:
/// over any run of events a fresh picker captures once if it has stopped,
/// and never otherwise.
pub proof fn lemma_single_capture(events: Seq<PointerEvent>)
    ensures
        captures(fresh_picker(), events) == if picker_after(fresh_picker(), events).stopped {
            1nat
        } else {
            0nat
        },
    decreases events.len(),
{
    if events.len() > 0 {
        lemma_single_capture(events.drop_last());
    }
}

/// A picker that has seen nothing.
pub open spec fn fresh_picker() -> CoordinatePicker {
    CoordinatePicker { last_x: 0, last_y: 0, stopped: false }
}

impl CoordinatePicker {
    /// A picker that has seen nothing.
    pub fn new() -> (picker: CoordinatePicker)
        ensures
            picker == fresh_picker(),
    {
        CoordinatePicker { last_x: 0, last_y: 0, stopped: false }
    }

    /// Takes one input event and decides what becomes of it.
    pub fn on_event(&mut self, event: PointerEvent) -> (decision: PickDecision)
        ensures
            (*final(self), decision) == after_event(*old(self), event),
    {
        if self.stopped {
            return PickDecision::Pass;
        }
        match event {
            PointerEvent::Move { x, y } => {
                self.last_x = x;
                self.last_y = y;
                PickDecision::Pass
            },
            PointerEvent::LeftPress => {
                if self.last_x != 0 || self.last_y != 0 {
                    self.stopped = true;
                    PickDecision::Capture { x: self.last_x, y: self.last_y }
                } else {
                    PickDecision::Pass
                }
            },
            PointerEvent::Other => PickDecision::Pass,
        }
    }

    /// Ends the pick from the caller's side: after a position came in, or
    /// after the timeout.
    pub fn stop(&mut self)
        ensures
            *final(self) == (CoordinatePicker { stopped: true, ..*old(self) }),
    {
        self.stopped = true;
    }
}

/// The result of a pick: the position that came in within the timeout, or
/// the timeout.
pub fn pick_result(received: Option<(i32, i32)>) -> (result: Result<(i32, i32), PickError>)
    ensures
        result == match received {
            Some(position) => Ok::<(i32, i32), PickError>(position),
            None => Err::<(i32, i32), PickError>(PickError::Timeout),
        },
{
    match received {
        Some(position) => Ok(position),
        None => Err(PickError::Timeout),
    }
}

} // verus!
