//! The update engine: the shared volume cell with its wake signal, the volume
//! watcher's decisions and the snapshot scheduler's state machine.
use vstd::prelude::*;
use crate::text::{contains_chars, has_infix, to_chars};

verus! {

broadcast use vstd::string::group_string_axioms;

/// The text that marks a sink-change line in the mixer's event feed.
pub const SINK_CHANGE_MARKER: &'static str = "Event 'change' on sink";

/// How long the scheduler waits for a wake signal before it builds anyway.
pub const TICK_MILLIS: u64 = 1000;

/// The last observed volume and the wake signal. Both live under one lock, so
/// that updating the volume and raising the signal form one critical section.
#[derive(Debug, Clone, Copy, PartialEq, Eq, Structural)]
pub struct VolumeCell {
    pub volume: u32,
    pub wake: bool,
}

/// Whether a volume reading changes the cell, and so raises the wake signal.
pub open spec fn raises_wake(c: VolumeCell, reading: Option<u32>) -> bool {
    reading matches Some(v) && v != c.volume
}

/// The cell after a volume reading: a changed level is stored and raises the
/// signal; an unchanged level or a failed reading leaves the cell as it was.
pub open spec fn after_reading(c: VolumeCell, reading: Option<u32>) -> VolumeCell {
    if raises_wake(c, reading) {
        VolumeCell { volume: reading->Some_0, wake: true }
    } else {
        c
    }
}

/// The cell after a snapshot has read it: the volume stays, the signal is clear.
pub open spec fn after_snapshot(c: VolumeCell) -> VolumeCell {
    VolumeCell { volume: c.volume, wake: false }
}

/// The cell after a run of volume readings, in order.
pub open spec fn after_readings(c: VolumeCell, readings: Seq<Option<u32>>) -> VolumeCell
    decreases readings.len(),
{
    if readings.len() == 0 {
        c
    } else {
        after_readings(after_reading(c, readings[0]), readings.drop_first())
    }
}

/// How many readings of a run raise the wake signal.
pub open spec fn wakes_in(c: VolumeCell, readings: Seq<Option<u32>>) -> nat
    decreases readings.len(),
{
    if readings.len() == 0 {
        0
    } else {
        (if raises_wake(c, readings[0]) {
            1nat
        } else {
            0nat
        }) + wakes_in(after_reading(c, readings[0]), readings.drop_first())
    }
}

impl VolumeCell {
    /// The cell at startup: the first volume reading, 0 when there is none,
    /// and no signal.
    pub fn new(initial: Option<u32>) -> (c: VolumeCell)
        ensures
            c.volume == (match initial {
                Some(v) => v,
                None => 0,
            }),
            !c.wake,
    {
        match initial {
            Some(v) => VolumeCell { volume: v, wake: false },
            None => VolumeCell { volume: 0, wake: false },
        }
    }

    /// Publishes a volume reading of the watcher. Returns whether it raised
    /// the wake signal, that is whether the scheduler must be notified.
    pub fn publish(&mut self, reading: Option<u32>) -> (woke: bool)
        ensures
            *final(self) == after_reading(*old(self), reading),
            woke == raises_wake(*old(self), reading),
    {
        match reading {
            Some(v) => {
                if v != self.volume {
                    self.volume = v;
                    self.wake = true;
                    true
                } else {
                    false
                }
            },
            None => false,
        }
    }

    /// Reads the volume for a snapshot and clears the wake signal.
    pub fn take_for_snapshot(&mut self) -> (v: u32)
        ensures
            v == old(self).volume,
            *final(self) == after_snapshot(*old(self)),
    {
        self.wake = false;
        self.volume
    }
}

/// What the watcher does with a line of the mixer's event feed.
#[derive(Debug, Clone, Copy, PartialEq, Eq, Structural)]
pub enum WatcherAction {
    /// The line is of no interest.
    Ignore,
    /// A sink changed: read the volume again and publish it.
    QueryVolume,
}

/// The watcher's decision on one line of the event feed.
pub fn watcher_on_line(line: &str) -> (a: WatcherAction)
    ensures
        a == (if has_infix(line@, SINK_CHANGE_MARKER@) {
            WatcherAction::QueryVolume
        } else {
            WatcherAction::Ignore
        }),
{
    let text = to_chars(line);
    let marker = to_chars(SINK_CHANGE_MARKER);
    if contains_chars(&text, &marker) {
        WatcherAction::QueryVolume
    } else {
        WatcherAction::Ignore
    }
}

/// Where the scheduler stands.
#[derive(Debug, Clone, Copy, PartialEq, Eq, Structural)]
pub enum Phase {
    /// Nothing written yet.
    Startup,
    /// Waiting for the wake signal or the tick.
    Waiting,
    /// Building and writing a snapshot.
    Building,
}

/// What happened to the scheduler.
#[derive(Debug, Clone, Copy, PartialEq, Eq, Structural)]
pub enum SchedulerEvent {
    /// The process started.
    Begin,
    /// The wait ended: by the wake signal, or by the tick when `signalled`
    /// is false. A signal that comes with the tick is one wake.
    Wake { signalled: bool },
    /// The snapshot was written and flushed.
    Written,
}

/// What the scheduler asks for next.
#[derive(Debug, Clone, Copy, PartialEq, Eq, Structural)]
pub enum SchedulerAction {
    /// Read the volume cell once, read the sensors, write one snapshot.
    Build,
    /// Wait for the wake signal, at most this many milliseconds.
    Wait { timeout_millis: u64 },
    /// Nothing: the event does not apply in this phase.
    Nothing,
}

/// The scheduler's transition: the next phase and the action it asks for.
pub open spec fn transition(p: Phase, e: SchedulerEvent) -> (Phase, SchedulerAction) {
    match (p, e) {
        (Phase::Startup, SchedulerEvent::Begin) => (Phase::Building, SchedulerAction::Build),
        (Phase::Waiting, SchedulerEvent::Wake { .. }) => (Phase::Building, SchedulerAction::Build),
        (Phase::Building, SchedulerEvent::Written) => (
            Phase::Waiting,
            SchedulerAction::Wait { timeout_millis: TICK_MILLIS },
        ),
        _ => (p, SchedulerAction::Nothing),
    }
}

/// The snapshot scheduler.
#[derive(Debug, Clone, Copy, PartialEq, Eq, Structural)]
pub struct Scheduler {
    pub phase: Phase,
}

impl Scheduler {
    /// A scheduler that has written nothing yet.
    pub fn new() -> (s: Scheduler)
        ensures
            s.phase == Phase::Startup,
    {
        Scheduler { phase: Phase::Startup }
    }

    /// Takes one event and says what to do next.
    pub fn step(&mut self, e: SchedulerEvent) -> (a: SchedulerAction)
        ensures
            (final(self).phase, a) == transition(old(self).phase, e),
    {
        match (self.phase, e) {
            (Phase::Startup, SchedulerEvent::Begin) => {
                self.phase = Phase::Building;
                SchedulerAction::Build
            },
            (Phase::Waiting, SchedulerEvent::Wake { .. }) => {
                self.phase = Phase::Building;
                SchedulerAction::Build
            },
            (Phase::Building, SchedulerEvent::Written) => {
                self.phase = Phase::Waiting;
                SchedulerAction::Wait { timeout_millis: TICK_MILLIS }
            },
            _ => SchedulerAction::Nothing,
        }
    }
}

/// A run of readings that all equal the stored volume raises no wake signal
/// and leaves the cell as it was.
pub proof fn lemma_unchanged_readings_never_wake(c: VolumeCell, readings: Seq<Option<u32>>)
    requires
        forall|k: int| 0 <= k < readings.len() ==> readings[k] == Some(c.volume),
    ensures
        wakes_in(c, readings) == 0,
        after_readings(c, readings) == c,
    decreases readings.len(),
{
    if readings.len() > 0 {
        let rest = readings.drop_first();
        assert forall|k: int| 0 <= k < rest.len() implies rest[k] == Some(c.volume) by {
            assert(rest[k] == readings[k + 1]);
        }
        lemma_unchanged_readings_never_wake(c, rest);
    }
}

/// The scheduler builds without any wake signal: the start builds at once,
/// every wait ends in a build whether the tick or the signal ended it, and
/// after each snapshot the wait is bounded by the tick.
pub proof fn lemma_tick_alone_keeps_building(signalled: bool)
    ensures
        transition(Phase::Startup, SchedulerEvent::Begin) == (Phase::Building, SchedulerAction::Build),
        transition(Phase::Waiting, SchedulerEvent::Wake { signalled: false }) == (
            Phase::Building,
            SchedulerAction::Build,
        ),
        transition(Phase::Waiting, SchedulerEvent::Wake { signalled }) == (
            Phase::Building,
            SchedulerAction::Build,
        ),
        transition(Phase::Building, SchedulerEvent::Written) == (
            Phase::Waiting,
            SchedulerAction::Wait { timeout_millis: TICK_MILLIS },
        ),
        TICK_MILLIS == 1000,
{
}

/// A wake that comes while a snapshot is being built causes no second build.
pub proof fn lemma_no_double_build(signalled: bool)
    ensures
        transition(Phase::Building, SchedulerEvent::Wake { signalled }) == (
            Phase::Building,
            SchedulerAction::Nothing,
        ),
{
}

/// A changed reading published between two ticks raises the signal, and the
/// next snapshot reads the new level, whatever unchanged readings follow it.
pub proof fn lemma_no_lost_update(c: VolumeCell, v: u32, later: Seq<Option<u32>>)
    requires
        forall|k: int| 0 <= k < later.len() ==> later[k] == Some(v),
    ensures
        v != c.volume ==> after_reading(c, Some(v)).wake,
        after_reading(c, Some(v)).volume == v,
        after_readings(after_reading(c, Some(v)), later).volume == v,
        after_snapshot(after_readings(after_reading(c, Some(v)), later)).volume == v,
{
    lemma_unchanged_readings_never_wake(after_reading(c, Some(v)), later);
}

}
