//! The actuation scheduler: one slot for a pending fire, driven tick by tick.
//!
//! The slot is idle or armed with the instant at which to fire. A schedule
//! command arms it, in place of whatever was pending; a cancel command clears
//! it; the tick of the armed instant fires and clears it. Whatever happens is
//! told to the caller as a list of effects, in the order in which to report
//! them.

use crate::command_stream::Command;
use crate::event_stream::Event;
use vstd::prelude::*;

verus! {

/// The slot of the scheduler.
#[derive(Clone, Copy, Debug, PartialEq, Eq, Structural)]
pub enum Slot {
    /// Nothing is pending.
    Idle,
    /// A fire is pending at this instant.
    Armed(u64),
}

/// What the scheduler did.
#[derive(Clone, Copy, Debug, PartialEq, Eq, Structural)]
pub enum Action {
    /// A fire was scheduled, this many time units on.
    ScheduleFiring(u64),
    /// The fire pending at this instant was cancelled.
    CancelPending(u64),
    /// A cancel arrived with nothing pending.
    CancelAnyPending,
    /// The pending fire came due and fired.
    FiringNow,
    /// A fire was asked for this many time units on, beyond the last
    /// instant. Nothing was changed.
    Overflow(u64),
}

/// Something the scheduler did, with the instant at which it did it.
#[derive(Clone, Copy, Debug, PartialEq, Eq, Structural)]
pub struct Effect {
    pub time: u64,
    pub action: Action,
}

impl Slot {
    /// The slot and the effects after `command` arrives at the instant
    /// `time`.
    pub open spec fn apply(self, time: u64, command: Command) -> (Slot, Seq<Effect>) {
        match command {
            Command::Schedule(delay) => if time + delay <= u64::MAX {
                (
                    Slot::Armed((time + delay) as u64),
                    match self {
                        Slot::Armed(fire_at) => seq![
                            Effect { time, action: Action::CancelPending(fire_at) },
                            Effect { time, action: Action::ScheduleFiring(delay) },
                        ],
                        Slot::Idle => seq![Effect { time, action: Action::ScheduleFiring(delay) }],
                    },
                )
            } else {
                (self, seq![Effect { time, action: Action::Overflow(delay) }])
            },
            Command::Cancel => (
                Slot::Idle,
                match self {
                    Slot::Armed(fire_at) => seq![
                        Effect { time, action: Action::CancelPending(fire_at) },
                    ],
                    Slot::Idle => seq![Effect { time, action: Action::CancelAnyPending }],
                },
            ),
            Command::Quit => (self, Seq::empty()),
        }
    }

    /// Whether the tick of the instant `time` fires the slot.
    pub open spec fn is_due(self, time: u64) -> bool {
        self == Slot::Armed(time)
    }

    /// The slot and the effects after the fire check at the instant `time`.
    pub open spec fn check(self, time: u64) -> (Slot, Seq<Effect>) {
        if self.is_due(time) {
            (Slot::Idle, seq![Effect { time, action: Action::FiringNow }])
        } else {
            (self, Seq::empty())
        }
    }

    /// The slot and the effects after a tick: its command is applied, if it
    /// has one, and then the fire check runs.
    pub open spec fn on_tick(self, tick: Event) -> (Slot, Seq<Effect>) {
        let (slot, effects) = match tick.command {
            Some(command) => self.apply(tick.time, command_of_tick(command)),
            None => (self, Seq::empty()),
        };
        (slot.check(tick.time).0, effects + slot.check(tick.time).1)
    }
}

/// The scheduler's command for the command that a tick carries.
pub open spec fn command_of_tick(command: crate::event_stream::Command) -> Command {
    match command {
        crate::event_stream::Command::Schedule(delay) => Command::Schedule(delay),
        crate::event_stream::Command::Cancel => Command::Cancel,
    }
}

/// Keeps the one pending fire.
pub struct Scheduler {
    pending_fire: Option<u64>,
}

impl View for Scheduler {
    type V = Slot;

    closed spec fn view(&self) -> Slot {
        match self.pending_fire {
            Some(fire_at) => Slot::Armed(fire_at),
            None => Slot::Idle,
        }
    }
}

impl Default for Scheduler {
    /// A scheduler with nothing pending.
    fn default() -> (scheduler: Scheduler)
        ensures
            scheduler@ == Slot::Idle,
    {
        Scheduler { pending_fire: None }
    }
}

impl Scheduler {
    /// A scheduler with nothing pending.
    pub fn new() -> (scheduler: Scheduler)
        ensures
            scheduler@ == Slot::Idle,
    {
        Scheduler { pending_fire: None }
    }

    /// Drops whatever is pending, and reports nothing.
    pub fn clear_pending(&mut self)
        ensures
            final(self)@ == Slot::Idle,
    {
        self.pending_fire = None;
    }

    /// Whether nothing is pending.
    pub fn is_empty(&self) -> (b: bool)
        ensures
            b == (self@ == Slot::Idle),
    {
        self.pending_fire.is_none()
    }

    /// The instant of the pending fire, if one is pending.
    pub fn pending_fire(&self) -> (p: Option<u64>)
        ensures
            match p {
                Some(fire_at) => self@ == Slot::Armed(fire_at),
                None => self@ == Slot::Idle,
            },
    {
        self.pending_fire
    }

    /// Takes in a command that arrives at the instant `time`.
    ///
    /// `Schedule` arms the slot for `time + delay`; a fire that was pending
    /// is reported as cancelled first. Where that sum is beyond the last
    /// instant, the slot stays as it was and only the overflow is reported.
    /// `Cancel` clears the slot, and says whether anything was pending.
    /// `Quit` does nothing.
    pub fn process_command(&mut self, time: u64, command: Command) -> (effects: Vec<Effect>)
        ensures
            (final(self)@, effects@) == old(self)@.apply(time, command),
    {
        let mut effects: Vec<Effect> = Vec::new();
        match command {
            Command::Schedule(delay) => {
                match time.checked_add(delay) {
                    Some(fire_at) => {
                        if let Some(old_fire_at) = self.pending_fire {
                            effects.push(
                                Effect { time, action: Action::CancelPending(old_fire_at) },
                            );
                        }
                        effects.push(Effect { time, action: Action::ScheduleFiring(delay) });
                        self.pending_fire = Some(fire_at);
                    },
                    None => {
                        effects.push(Effect { time, action: Action::Overflow(delay) });
                    },
                }
            },
            Command::Cancel => {
                match self.pending_fire {
                    Some(old_fire_at) => {
                        effects.push(Effect { time, action: Action::CancelPending(old_fire_at) });
                    },
                    None => {
                        effects.push(Effect { time, action: Action::CancelAnyPending });
                    },
                }
                self.clear_pending();
            },
            Command::Quit => {},
        }
        effects
    }

    /// The fire check at the instant `time`: a fire pending at exactly that
    /// instant fires, and the slot is idle after it. Tells whether it fired.
    pub fn next_fire(&mut self, time: u64) -> (fired: bool)
        ensures
            fired == old(self)@.is_due(time),
            final(self)@ == old(self)@.check(time).0,
    {
        match self.pending_fire {
            Some(fire_at) => {
                if fire_at == time {
                    self.pending_fire = None;
                    true
                } else {
                    false
                }
            },
            None => false,
        }
    }

    /// Takes in a tick: applies its command, if it has one, then runs the
    /// fire check for its instant. A fire scheduled with no delay fires in
    /// the same tick.
    pub fn process_tick(&mut self, tick: Event) -> (effects: Vec<Effect>)
        ensures
            (final(self)@, effects@) == old(self)@.on_tick(tick),
    {
        let mut effects: Vec<Effect> = match tick.command {
            Some(crate::event_stream::Command::Schedule(delay)) => self.process_command(
                tick.time,
                Command::Schedule(delay),
            ),
            Some(crate::event_stream::Command::Cancel) => self.process_command(
                tick.time,
                Command::Cancel,
            ),
            None => Vec::new(),
        };
        if self.next_fire(tick.time) {
            effects.push(Effect { time: tick.time, action: Action::FiringNow });
        }
        effects
    }
}

/// Cancelling is idempotent: a cancel that finds nothing pending leaves the
/// slot idle, and its one effect is `CancelAnyPending`.
pub proof fn lemma_cancel_when_idle(time: u64)
    ensures
        Slot::Idle.apply(time, Command::Cancel) == (
            Slot::Idle,
            seq![Effect { time, action: Action::CancelAnyPending }],
        ),
        Slot::Idle.apply(time, Command::Cancel).0.apply(time, Command::Cancel)
            == Slot::Idle.apply(time, Command::Cancel),
{
}

/// Overwriting: a schedule that finds a fire pending at `fire_at` arms the
/// slot for `time + delay` at once. The effects are the cancelling of
/// `fire_at` and the scheduling, and no firing; and from then on the slot
/// comes due at `time + delay` and at no other instant, so the fire at
/// `fire_at` never happens on its own account.
pub proof fn lemma_schedule_overwrites(fire_at: u64, time: u64, delay: u64)
    requires
        time + delay <= u64::MAX,
    ensures
        Slot::Armed(fire_at).apply(time, Command::Schedule(delay)) == (
            Slot::Armed((time + delay) as u64),
            seq![
                Effect { time, action: Action::CancelPending(fire_at) },
                Effect { time, action: Action::ScheduleFiring(delay) },
            ],
        ),
        forall|at: u64|
            #![trigger Slot::Armed((time + delay) as u64).is_due(at)]
            Slot::Armed((time + delay) as u64).is_due(at) <==> at == time + delay,
{
}

} // verus!
