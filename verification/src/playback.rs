//! The decisions of the playback scheduler.
//!
//! Playback replays a list of timed events against the clock. This module
//! holds what is decided, not what is done: a slot per event category that
//! admits one worker at a time, and a sequencer that tells the worker, step
//! by step, whether to sleep, to deliver an event, or to end. Threads, the
//! clock and the delivery itself belong to the caller.
//!
//! Times are in nanoseconds from the start of the session.

use vstd::prelude::*;

verus! {

/// What a timed event delivers.
#[derive(Clone, Debug, PartialEq, Eq)]
pub enum Payload {
    /// A key combination such as `ctrl+a`.
    Key(String),
    /// A click at a screen position.
    Mouse { x: i32, y: i32 },
}

/// An event of either category, as the sequencer holds it.
#[derive(Clone, Debug, PartialEq, Eq)]
pub struct TimedEvent {
    pub time: u64,
    pub payload: Payload,
    pub duration: u64,
}

/// A key press to replay.
#[derive(Clone, Debug, PartialEq, Eq)]
pub struct KeyEvent {
    pub time: u64,
    pub key: String,
    pub duration: u64,
}

/// A mouse click to replay.
#[derive(Clone, Copy, Debug, PartialEq, Eq, Structural)]
pub struct MouseEvent {
    pub time: u64,
    pub x: i32,
    pub y: i32,
    pub duration: u64,
}

/// Why playback could not start.
#[derive(Clone, Copy, Debug, PartialEq, Eq, Structural)]
pub enum PlaybackError {
    /// The category already has a live worker.
    AlreadyInProgress,
}

/// The session state of one event category: whether a worker is live, and
/// whether it was asked to stop.
#[derive(Clone, Copy, Debug, PartialEq, Eq, Structural)]
pub struct PlaybackSlot {
    pub worker_live: bool,
    pub should_stop: bool,
}

/// What the caller of a stop has to do next.
#[derive(Clone, Copy, Debug, PartialEq, Eq, Structural)]
pub enum StopAction {
    /// A worker was live: wait for it to end.
    JoinWorker,
    /// No worker was live: nothing to wait for.
    Nothing,
}

/// The slot after a start, and what the start returns. A slot with a live
/// worker refuses and stays as it is; an idle slot clears the stop flag and
/// takes the worker.
pub open spec fn after_start(slot: PlaybackSlot) -> (PlaybackSlot, Result<(), PlaybackError>) {
    if slot.worker_live {
        (slot, Err(PlaybackError::AlreadyInProgress))
    } else {
        (PlaybackSlot { worker_live: true, should_stop: false }, Ok(()))
    }
}

/// The slot after a stop, and what the caller has to do: the stop flag is
/// set and the worker, if any, is handed to the caller to wait for.
pub open spec fn after_stop(slot: PlaybackSlot) -> (PlaybackSlot, StopAction) {
    (
        PlaybackSlot { worker_live: false, should_stop: true },
        if slot.worker_live {
            StopAction::JoinWorker
        } else {
            StopAction::Nothing
        },
    )
}

/// The slot after its worker has left its loop.
pub open spec fn after_finish(slot: PlaybackSlot) -> PlaybackSlot {
    PlaybackSlot { worker_live: false, should_stop: slot.should_stop }
}

/// Single flight: of two starts with nothing in between, the second is
/// refused and leaves the session of the first untouched.
pub proof fn lemma_single_flight(slot: PlaybackSlot)
    requires
        after_start(slot).1 is Ok,
    ensures
        after_start(after_start(slot).0).1 == Err::<(), PlaybackError>(
            PlaybackError::AlreadyInProgress,
        ),
        after_start(after_start(slot).0).0 == after_start(slot).0,
{
}

/// A stop returns the category to idle, whatever its state, so that a start
/// right after it succeeds; and a stop on an idle slot has nothing to wait
/// for and changes nothing that a second stop would not.
pub proof fn lemma_stop_then_start(slot: PlaybackSlot)
    ensures
        !after_stop(slot).0.worker_live,
        after_start(after_stop(slot).0).1 is Ok,
        after_stop(after_stop(slot).0) == (after_stop(slot).0, StopAction::Nothing),
{
}

/// A worker that has left its loop frees the category for the next start.
pub proof fn lemma_finish_then_start(slot: PlaybackSlot)
    ensures
        after_start(after_finish(slot)).1 is Ok,
{
}

impl PlaybackSlot {
    /// An idle slot.
    pub fn new() -> (slot: PlaybackSlot)
        ensures
            slot == (PlaybackSlot { worker_live: false, should_stop: false }),
    {
        PlaybackSlot { worker_live: false, should_stop: false }
    }

    /// Claims the slot for a new worker, or refuses where one is live.
    pub fn start(&mut self) -> (started: Result<(), PlaybackError>)
        ensures
            (*final(self), started) == after_start(*old(self)),
    {
        if self.worker_live {
            Err(PlaybackError::AlreadyInProgress)
        } else {
            self.should_stop = false;
            self.worker_live = true;
            Ok(())
        }
    }

    /// Asks the worker to stop and hands it over to the caller to wait for.
    pub fn stop(&mut self) -> (action: StopAction)
        ensures
            (*final(self), action) == after_stop(*old(self)),
    {
        let action = if self.worker_live {
            StopAction::JoinWorker
        } else {
            StopAction::Nothing
        };
        self.should_stop = true;
        self.worker_live = false;
        action
    }

    /// Records that the worker has left its loop.
    pub fn finish(&mut self)
        ensures
            *final(self) == after_finish(*old(self)),
    {
        self.worker_live = false;
    }

    /// Whether the worker was asked to stop.
    pub fn stop_requested(&self) -> (stop: bool)
        ensures
            stop == self.should_stop,
    {
        self.should_stop
    }
}

/// The session state of both categories. They are independent: what one
/// does never touches the other.
#[derive(Clone, Copy, Debug, PartialEq, Eq, Structural)]
pub struct PlaybackManager {
    pub keyboard: PlaybackSlot,
    pub mouse: PlaybackSlot,
}

impl PlaybackManager {
    /// A manager with both categories idle.
    pub fn new() -> (manager: PlaybackManager)
        ensures
            !manager.keyboard.worker_live,
            !manager.keyboard.should_stop,
            !manager.mouse.worker_live,
            !manager.mouse.should_stop,
    {
        PlaybackManager { keyboard: PlaybackSlot::new(), mouse: PlaybackSlot::new() }
    }
}

/// Where the worker stands with the event that is next.
#[derive(Clone, Copy, Debug, PartialEq, Eq, Structural)]
pub enum Phase {
    /// Before the wait: the stop flag and the clock are to be read.
    Waiting,
    /// After the wait: the stop flag is to be read once more.
    Ready,
    /// The worker has left its loop.
    Ended,
}

/// What the worker has to do next.
#[derive(Clone, Copy, Debug, PartialEq, Eq, Structural)]
pub enum Step {
    /// Sleep for this many nanoseconds, then ask again.
    Sleep(u64),
    /// The event is due: ask again at once.
    Proceed,
    /// Deliver the event at this position, then ask again.
    Dispatch(usize),
    /// Leave the loop and free the slot.
    Finished,
}

/// The position of a worker in its list of events.
#[derive(Clone, Copy, Debug, PartialEq, Eq, Structural)]
pub struct Cursor {
    pub next: usize,
    pub phase: Phase,
}

/// The cursor after one step, and the step, for a worker that read `stop`
/// from the stop flag and `elapsed` from the clock.
///
/// A worker that has ended stays ended. With no event left, or with the stop
/// flag set, it ends. Before the wait it sleeps for what is left until the
/// event is due, or proceeds if nothing is left; after the wait it delivers
/// the event and moves on to the next.
pub open spec fn after_step(times: Seq<u64>, cursor: Cursor, stop: bool, elapsed: u64) -> (
    Cursor,
    Step,
) {
    if cursor.phase == Phase::Ended || cursor.next >= times.len() || stop {
        (Cursor { next: cursor.next, phase: Phase::Ended }, Step::Finished)
    } else if cursor.phase == Phase::Waiting {
        (
            Cursor { next: cursor.next, phase: Phase::Ready },
            if times[cursor.next as int] > elapsed {
                Step::Sleep((times[cursor.next as int] - elapsed) as u64)
            } else {
                Step::Proceed
            },
        )
    } else {
        (
            Cursor { next: (cursor.next + 1) as usize, phase: Phase::Waiting },
            Step::Dispatch(cursor.next),
        )
    }
}

/// The cursor after the worker has taken one step for each reading of
/// `readings`, a reading being the stop flag and the clock.
pub open spec fn cursor_after(times: Seq<u64>, cursor: Cursor, readings: Seq<(bool, u64)>) -> Cursor
    decreases readings.len(),
{
    if readings.len() == 0 {
        cursor
    } else {
        after_step(
            times,
            cursor_after(times, cursor, readings.drop_last()),
            readings.last().0,
            readings.last().1,
        ).0
    }
}

/// The positions that the worker delivers over `readings`, in the order of
/// delivery.
pub open spec fn dispatched(times: Seq<u64>, cursor: Cursor, readings: Seq<(bool, u64)>) -> Seq<usize>
    decreases readings.len(),
{
    if readings.len() == 0 {
        Seq::empty()
    } else {
        let before = dispatched(times, cursor, readings.drop_last());
        match after_step(
            times,
            cursor_after(times, cursor, readings.drop_last()),
            readings.last().0,
            readings.last().1,
        ).1 {
            Step::Dispatch(i) => before.push(i),
            _ => before,
        }
    }
}

/// The cursor of a worker that has not begun.
pub open spec fn start_cursor() -> Cursor {
    Cursor { next: 0, phase: Phase::Waiting }
}

/// Events are delivered in input order, none skipped and none twice:
/// whatever the readings, the positions delivered from the start are 0, 1,
/// 2 and so on, up to where the cursor stands.
pub proof fn lemma_dispatch_in_order(times: Seq<u64>, readings: Seq<(bool, u64)>)
    requires
        times.len() <= usize::MAX,
    ensures
        cursor_after(times, start_cursor(), readings).next <= times.len(),
        dispatched(times, start_cursor(), readings).len() == cursor_after(
            times,
            start_cursor(),
            readings,
        ).next,
        forall|k: int|
            0 <= k < dispatched(times, start_cursor(), readings).len() ==> dispatched(
                times,
                start_cursor(),
                readings,
            )[k] == k,
    decreases readings.len(),
{
    if readings.len() > 0 {
        lemma_dispatch_in_order(times, readings.drop_last());
    }
}

/// Cancellation: once the worker reads the stop flag as set, it has ended,
/// and it delivers nothing from then on, whatever it reads later.
pub proof fn lemma_stop_halts_dispatch(
    times: Seq<u64>,
    cursor: Cursor,
    readings: Seq<(bool, u64)>,
    at: int,
)
    requires
        0 <= at < readings.len(),
        readings[at].0,
    ensures
        cursor_after(times, cursor, readings).phase == Phase::Ended,
        dispatched(times, cursor, readings) == dispatched(times, cursor, readings.take(at)),
    decreases readings.len(),
{
    let head = readings.drop_last();
    if at == readings.len() - 1 {
        assert(head =~= readings.take(at));
    } else {
        assert(head[at] == readings[at]);
        lemma_stop_halts_dispatch(times, cursor, head, at);
        assert(head.take(at) =~= readings.take(at));
    }
}

/// No event is delivered early: a delivery follows a step before the wait
/// at which the event was due, or was slept for until it was due.
pub proof fn lemma_never_early(times: Seq<u64>, cursor: Cursor, stop: bool, elapsed: u64)
    requires
        cursor.phase == Phase::Waiting,
        cursor.next < times.len(),
        !stop,
    ensures
        match after_step(times, cursor, stop, elapsed).1 {
            Step::Sleep(wait) => elapsed + wait == times[cursor.next as int],
            Step::Proceed => elapsed >= times[cursor.next as int],
            _ => false,
        },
        after_step(times, cursor, stop, elapsed).0.phase == Phase::Ready,
        after_step(times, cursor, stop, elapsed).0.next == cursor.next,
{
}

/// The due times of a list of events.
pub open spec fn due_times(events: Seq<TimedEvent>) -> Seq<u64> {
    Seq::new(events.len(), |i: int| events[i].time)
}

/// A worker's list of events and its position in it.
#[derive(Clone, Debug, PartialEq, Eq)]
pub struct Sequencer {
    pub events: Vec<TimedEvent>,
    pub cursor: Cursor,
}

impl Sequencer {
    /// A sequencer at the start of `events`. The events are taken in the
    /// order given; they are not sorted.
    pub fn new(events: Vec<TimedEvent>) -> (sequencer: Sequencer)
        ensures
            sequencer.events@ == events@,
            sequencer.cursor == start_cursor(),
    {
        Sequencer { events, cursor: Cursor { next: 0, phase: Phase::Waiting } }
    }

    /// Decides the worker's next step from the stop flag and the time
    /// elapsed since the session began.
    pub fn step(&mut self, stop: bool, elapsed: u64) -> (step: Step)
        ensures
            final(self).events == old(self).events,
            (final(self).cursor, step) == after_step(
                due_times(old(self).events@),
                old(self).cursor,
                stop,
                elapsed,
            ),
            step matches Step::Dispatch(i) ==> i < old(self).events@.len(),
    {
        if self.cursor.phase == Phase::Ended || self.cursor.next >= self.events.len() || stop {
            self.cursor.phase = Phase::Ended;
            return Step::Finished;
        }
        if self.cursor.phase == Phase::Waiting {
            self.cursor.phase = Phase::Ready;
            let due: u64 = self.events[self.cursor.next].time;
            if due > elapsed {
                Step::Sleep(due - elapsed)
            } else {
                Step::Proceed
            }
        } else {
            let index: usize = self.cursor.next;
            self.cursor.next = index + 1;
            self.cursor.phase = Phase::Waiting;
            Step::Dispatch(index)
        }
    }

    /// What the event at a position delivers.
    pub fn payload(&self, index: usize) -> (payload: &Payload)
        requires
            index < self.events@.len(),
        ensures
            *payload == self.events@[index as int].payload,
    {
        &self.events[index].payload
    }
}

/// The key events as the sequencer holds them.
pub open spec fn key_timeline(events: Seq<KeyEvent>) -> Seq<TimedEvent> {
    Seq::new(
        events.len(),
        |i: int|
            TimedEvent {
                time: events[i].time,
                payload: Payload::Key(events[i].key),
                duration: events[i].duration,
            },
    )
}

/// The mouse events as the sequencer holds them.
pub open spec fn mouse_timeline(events: Seq<MouseEvent>) -> Seq<TimedEvent> {
    Seq::new(
        events.len(),
        |i: int|
            TimedEvent {
                time: events[i].time,
                payload: Payload::Mouse { x: events[i].x, y: events[i].y },
                duration: events[i].duration,
            },
    )
}

/// Starts keyboard playback: claims the keyboard slot and hands back the
/// sequencer for the worker to run, or refuses with `AlreadyInProgress`
/// where keyboard playback is live. The mouse slot is not touched.
pub fn start_playback(manager: &mut PlaybackManager, events: Vec<KeyEvent>) -> (started: Result<
    Sequencer,
    PlaybackError,
>)
    ensures
        final(manager).mouse == old(manager).mouse,
        final(manager).keyboard == after_start(old(manager).keyboard).0,
        match started {
            Ok(sequencer) => !old(manager).keyboard.worker_live && sequencer.events@
                == key_timeline(events@) && sequencer.cursor == start_cursor(),
            Err(error) => old(manager).keyboard.worker_live && error
                == PlaybackError::AlreadyInProgress,
        },
{
    match manager.keyboard.start() {
        Err(error) => Err(error),
        Ok(()) => {
            let mut timeline: Vec<TimedEvent> = Vec::new();
            let mut i: usize = 0;
            while i < events.len()
                invariant
                    i <= events.len(),
                    timeline.len() == i,
                    forall|k: int| 0 <= k < i ==> #[trigger] timeline@[k] == key_timeline(events@)[k],
                decreases events.len() - i,
            {
                timeline.push(
                    TimedEvent {
                        time: events[i].time,
                        payload: Payload::Key(events[i].key.clone()),
                        duration: events[i].duration,
                    },
                );
                i = i + 1;
            }
            assert(timeline@ =~= key_timeline(events@));
            Ok(Sequencer::new(timeline))
        },
    }
}

/// Stops keyboard playback: sets the stop flag and tells the caller whether
/// a worker is to be waited for. Always succeeds; on an idle slot there is
/// nothing to wait for. The mouse slot is not touched.
pub fn stop_playback(manager: &mut PlaybackManager) -> (action: StopAction)
    ensures
        final(manager).mouse == old(manager).mouse,
        (final(manager).keyboard, action) == after_stop(old(manager).keyboard),
{
    manager.keyboard.stop()
}

/// Starts mouse playback: claims the mouse slot and hands back the sequencer
/// for the worker to run, or refuses with `AlreadyInProgress` where mouse
/// playback is live. The keyboard slot is not touched.
pub fn start_mouse_playback(manager: &mut PlaybackManager, events: Vec<MouseEvent>) -> (started:
    Result<Sequencer, PlaybackError>)
    ensures
        final(manager).keyboard == old(manager).keyboard,
        final(manager).mouse == after_start(old(manager).mouse).0,
        match started {
            Ok(sequencer) => !old(manager).mouse.worker_live && sequencer.events@
                == mouse_timeline(events@) && sequencer.cursor == start_cursor(),
            Err(error) => old(manager).mouse.worker_live && error
                == PlaybackError::AlreadyInProgress,
        },
{
    match manager.mouse.start() {
        Err(error) => Err(error),
        Ok(()) => {
            let mut timeline: Vec<TimedEvent> = Vec::new();
            let mut i: usize = 0;
            while i < events.len()
                invariant
                    i <= events.len(),
                    timeline.len() == i,
                    forall|k: int|
                        0 <= k < i ==> #[trigger] timeline@[k] == mouse_timeline(events@)[k],
                decreases events.len() - i,
            {
                let event: MouseEvent = events[i];
                timeline.push(
                    TimedEvent {
                        time: event.time,
                        payload: Payload::Mouse { x: event.x, y: event.y },
                        duration: event.duration,
                    },
                );
                i = i + 1;
            }
            assert(timeline@ =~= mouse_timeline(events@));
            Ok(Sequencer::new(timeline))
        },
    }
}

/// Stops mouse playback: sets the stop flag and tells the caller whether a
/// worker is to be waited for. Always succeeds; on an idle slot there is
/// nothing to wait for. The keyboard slot is not touched.
pub fn stop_mouse_playback(manager: &mut PlaybackManager) -> (action: StopAction)
    ensures
        final(manager).keyboard == old(manager).keyboard,
        (final(manager).mouse, action) == after_stop(old(manager).mouse),
{
    manager.mouse.stop()
}

} // verus!
