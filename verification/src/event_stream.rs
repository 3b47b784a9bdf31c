//! The tick generator: turns a sparse log of timed commands into one tick
//! per instant.
//!
//! Records arrive as lines of the form `time<TAB>signal`. The generator
//! hands out one tick for every instant from 0 on, fills the instants between
//! records with ticks that carry no command, and after the end of the input
//! keeps ticking until the furthest fire time that any record promised.

use crate::text::{
    chars_of, find_tab, first_tab, read_signed, read_unsigned, signed_of, trim_bounds, trimmed,
    unsigned_of,
};
use std::collections::VecDeque;
use vstd::prelude::*;

verus! {

/// What a record asks of the scheduler.
#[derive(Clone, Copy, Debug, PartialEq, Eq, Structural)]
pub enum Command {
    /// Fire after this many time units, in place of whatever was pending.
    Schedule(u64),
    /// Drop whatever is pending.
    Cancel,
}

/// One instant of generated time, with the command that arrived at it, if
/// one did.
#[derive(Clone, Copy, Debug, PartialEq, Eq, Structural)]
pub struct Event {
    pub time: u64,
    pub command: Option<Command>,
}

/// The command that a record's signal stands for: a negative signal cancels,
/// any other schedules a fire that many time units on.
pub open spec fn command_of_signal(signal: i64) -> Command {
    if signal < 0 {
        Command::Cancel
    } else {
        Command::Schedule(signal as u64)
    }
}

/// The record that the line `s` writes: a time, one tab, a signal, and
/// nothing else. `None` where `s` has no tab, or either field is no integer
/// of its range.
pub open spec fn record_of(s: Seq<char>) -> Option<Event> {
    let k = first_tab(s);
    if k < s.len() {
        match (unsigned_of(s.take(k)), signed_of(s.skip(k + 1))) {
            (Some(time), Some(signal)) => Some(
                Event { time, command: Some(command_of_signal(signal)) },
            ),
            _ => None,
        }
    } else {
        None
    }
}

impl Event {
    /// The event of a record with the given time and signal.
    pub fn from_record(time: u64, signal: i64) -> (e: Event)
        ensures
            e == (Event { time, command: Some(command_of_signal(signal)) }),
    {
        let command = if signal < 0 {
            Command::Cancel
        } else {
            Command::Schedule(signal as u64)
        };
        Event { time, command: Some(command) }
    }

    /// The instant at which this event asks for a fire: its time plus its
    /// delay, where it schedules and the sum is a `u64`.
    pub open spec fn spec_fire_time(self) -> Option<u64> {
        match self.command {
            Some(Command::Schedule(delay)) => if self.time + delay <= u64::MAX {
                Some((self.time + delay) as u64)
            } else {
                None
            },
            _ => None,
        }
    }

    /// Whether this event schedules a fire beyond the last instant that a
    /// `u64` can hold.
    pub open spec fn spec_overflows(self) -> bool {
        match self.command {
            Some(Command::Schedule(delay)) => self.time + delay > u64::MAX,
            _ => false,
        }
    }

    /// The instant at which this event asks for a fire, if it asks for one
    /// that exists.
    #[verifier::when_used_as_spec(spec_fire_time)]
    pub fn fire_time(self) -> (r: Option<u64>)
        ensures
            r == self.spec_fire_time(),
    {
        match self.command {
            Some(Command::Schedule(delay)) => self.time.checked_add(delay),
            _ => None,
        }
    }
}

/// Reads `v[lo..hi]` as a record.
fn read_record(v: &Vec<char>, lo: usize, hi: usize) -> (r: Option<Event>)
    requires
        lo <= hi <= v.len(),
    ensures
        r == record_of(v@.subrange(lo as int, hi as int)),
{
    let ghost s = v@.subrange(lo as int, hi as int);
    let k: usize = find_tab(v, lo, hi);
    if k == hi {
        return None;
    }
    proof {
        assert(s.take(k - lo) == v@.subrange(lo as int, k as int));
        assert(s.skip(k - lo + 1) == v@.subrange(k + 1, hi as int));
    }
    let time: u64 = match read_unsigned(v, lo, k) {
        Some(t) => t,
        None => {
            return None;
        },
    };
    let signal: i64 = match read_signed(v, k + 1, hi) {
        Some(x) => x,
        None => {
            return None;
        },
    };
    Some(Event::from_record(time, signal))
}

/// How the input to a stream came to its end.
#[derive(Clone, Copy, Debug, PartialEq, Eq, Structural)]
pub enum Ending {
    /// The source has no more lines.
    Eof,
    /// A read failed.
    Failed,
}

/// What one pull on the generator gives.
#[derive(Clone, Copy, Debug, PartialEq, Eq, Structural)]
pub enum Step {
    /// The tick of the next instant.
    Tick(Event),
    /// Nothing can be decided until another line is offered or the input is
    /// ended.
    NeedInput,
    /// The input ended and every promised fire time has had its tick.
    End,
    /// The input failed. No tick follows.
    Stopped,
}

/// The first instant that no `u64` can hold.
pub open spec fn end_of_time() -> int {
    u64::MAX + 1
}

/// What a generator is, as plain values.
pub struct StreamState {
    /// The instant of the next tick, from 0 to `end_of_time()`.
    pub clock: int,
    /// The furthest fire time that any record read so far has promised.
    pub last_time: u64,
    /// The one record that was read ahead of its time.
    pub pending: Option<Event>,
    /// The records offered and not yet read, oldest first.
    pub inbox: Seq<Event>,
    /// How the input ended, once it has.
    pub ending: Option<Ending>,
    /// The warning of the last tick: whether it was a record that scheduled
    /// a fire beyond the last instant, a promise that was dropped.
    pub overflowed: bool,
}

/// A tick that carries no command.
pub open spec fn filler(time: int) -> Event {
    Event { time: time as u64, command: None }
}

impl StreamState {
    /// The clock stands at an instant, or at the one beyond the last.
    pub open spec fn valid(self) -> bool {
        0 <= self.clock <= end_of_time()
    }

    /// The state of a generator that has seen nothing.
    pub open spec fn fresh() -> StreamState {
        StreamState {
            clock: 0,
            last_time: 0,
            pending: None,
            inbox: Seq::empty(),
            ending: None,
            overflowed: false,
        }
    }

    /// One instant passes with nothing to do: `pending` is kept for later,
    /// and there is nothing to warn of.
    pub open spec fn advance(self, pending: Option<Event>) -> (StreamState, Event) {
        (
            StreamState { clock: self.clock + 1, pending, overflowed: false, ..self },
            filler(self.clock),
        )
    }

    /// The furthest promised fire time once `tick` has been taken in.
    pub open spec fn last_time_with(self, tick: Event) -> u64 {
        match tick.spec_fire_time() {
            Some(t) => if t > self.last_time {
                t
            } else {
                self.last_time
            },
            None => self.last_time,
        }
    }

    /// The record `tick` is taken in: held back behind a filler tick while
    /// its time lies ahead, else handed out as the tick of its own time.
    /// Where it is handed out and its fire lies beyond the last instant, the
    /// furthest promised fire time stays as it was and the warning is set.
    pub open spec fn process(self, tick: Event) -> (StreamState, Event) {
        if self.clock < tick.time {
            self.advance(Some(tick))
        } else {
            (
                StreamState {
                    clock: tick.time + 1,
                    last_time: self.last_time_with(tick),
                    overflowed: tick.spec_overflows(),
                    ..self
                },
                tick,
            )
        }
    }

    /// One pull: the record held back comes first, then the oldest record
    /// offered, then the end of the input.
    pub open spec fn step(self) -> (StreamState, Step) {
        match self.pending {
            Some(p) => {
                let (next, tick) = (StreamState { pending: None, ..self }).process(p);
                (next, Step::Tick(tick))
            },
            None => if self.inbox.len() > 0 {
                let (next, tick) = (StreamState { inbox: self.inbox.skip(1), ..self }).process(
                    self.inbox[0],
                );
                (next, Step::Tick(tick))
            } else {
                match self.ending {
                    None => (self, Step::NeedInput),
                    Some(Ending::Failed) => (self, Step::Stopped),
                    Some(Ending::Eof) => if self.clock <= self.last_time {
                        let (next, tick) = self.advance(None);
                        (next, Step::Tick(tick))
                    } else {
                        (self, Step::End)
                    },
                }
            },
        }
    }

    /// The record `event` is offered. After the end of the input it is
    /// dropped.
    pub open spec fn offer(self, event: Event) -> StreamState {
        if self.ending is None {
            StreamState { inbox: self.inbox.push(event), ..self }
        } else {
            self
        }
    }

    /// The line `line` is offered as it was read: white space at either end
    /// does not count, a line that writes a record is offered as that record,
    /// and any other line changes nothing.
    pub open spec fn offer_line(self, line: Seq<char>) -> StreamState {
        match record_of(trimmed(line)) {
            Some(event) => self.offer(event),
            None => self,
        }
    }

    /// The input ends. The first ending stands.
    pub open spec fn end_with(self, ending: Ending) -> StreamState {
        if self.ending is None {
            StreamState { ending: Some(ending), ..self }
        } else {
            self
        }
    }
}

/// Generates the ticks of a log of timed commands.
///
/// Lines are offered with `push_line` as they are read, the end of the input
/// is told with `close` or `fail`, and `next` hands out the ticks one by one.
pub struct EventStream {
    inbox: VecDeque<Event>,
    ending: Option<Ending>,
    pending_event: Option<Event>,
    last_time: u64,
    /// `None` once the tick of the last instant has been handed out.
    current_time: Option<u64>,
    overflowed: bool,
}

impl View for EventStream {
    type V = StreamState;

    closed spec fn view(&self) -> StreamState {
        StreamState {
            clock: match self.current_time {
                Some(t) => t as int,
                None => end_of_time(),
            },
            last_time: self.last_time,
            pending: self.pending_event,
            inbox: self.inbox@,
            ending: self.ending,
            overflowed: self.overflowed,
        }
    }
}

impl EventStream {
    /// A generator that has seen nothing: its clock stands at 0.
    pub fn new() -> (stream: EventStream)
        ensures
            stream@ == StreamState::fresh(),
    {
        EventStream {
            inbox: VecDeque::new(),
            ending: None,
            pending_event: None,
            last_time: 0,
            current_time: Some(0),
            overflowed: false,
        }
    }

    /// The state of a stream is always a valid one.
    pub proof fn lemma_valid(&self)
        ensures
            self@.valid(),
    {
    }

    /// Reads a line, with no white space round it, as a record.
    ///
    /// The stream is left as it was.
    pub fn parse_event(&mut self, line: &str) -> (r: Option<Event>)
        ensures
            r == record_of(line@),
            *final(self) == *old(self),
    {
        let v = chars_of(line);
        proof {
            assert(v@.subrange(0, v.len() as int) == v@);
        }
        read_record(&v, 0, v.len())
    }

    /// Hands out a tick without a command for the instant of the clock, moves
    /// the clock on by one, and keeps `pending` as the record held back.
    pub fn advance_time(&mut self, pending: Option<Event>) -> (tick: Event)
        requires
            old(self)@.clock < end_of_time(),
        ensures
            (final(self)@, tick) == old(self)@.advance(pending),
    {
        self.pending_event = pending;
        self.overflowed = false;
        let time: u64 = match self.current_time {
            Some(t) => t,
            None => 0,
        };
        self.current_time = time.checked_add(1);
        Event { time, command: None }
    }

    /// Takes in the record `tick`.
    ///
    /// While its time lies ahead of the clock the record is held back and a
    /// tick without a command is handed out. Otherwise the record is handed
    /// out as the tick of its own time, the clock moves to the instant after
    /// it, and a fire that it schedules is remembered if it is the furthest
    /// so far. A fire beyond the last instant is not remembered: the stream
    /// warns of it instead, which `overflowed` tells until the next tick.
    pub fn process_event(&mut self, tick: Event) -> (out: Event)
        ensures
            (final(self)@, out) == old(self)@.process(tick),
    {
        let ahead = match self.current_time {
            Some(t) => t < tick.time,
            None => false,
        };
        if ahead {
            return self.advance_time(Some(tick));
        }
        self.current_time = tick.time.checked_add(1);
        match tick.fire_time() {
            Some(scheduled_time) => {
                if scheduled_time > self.last_time {
                    self.last_time = scheduled_time;
                }
                self.overflowed = false;
            },
            None => {
                self.overflowed = match tick.command {
                    Some(Command::Schedule(_)) => true,
                    _ => false,
                };
            },
        }
        tick
    }

    /// Offers the record with the given time and signal. After the end of the
    /// input it is dropped.
    pub fn push_record(&mut self, time: u64, signal: i64)
        ensures
            final(self)@ == old(self)@.offer(
                Event { time, command: Some(command_of_signal(signal)) },
            ),
    {
        if self.ending.is_none() {
            self.inbox.push_back(Event::from_record(time, signal));
        }
    }

    /// Offers a line as it was read.
    ///
    /// White space at either end does not count. A line that writes a record
    /// is offered as that record. Any other line is dropped and leaves the
    /// stream as it was: no tick comes of it.
    pub fn push_line(&mut self, line: &str)
        ensures
            final(self)@ == old(self)@.offer_line(line@),
    {
        let v = chars_of(line);
        let (lo, hi): (usize, usize) = trim_bounds(&v);
        match read_record(&v, lo, hi) {
            Some(event) => {
                if self.ending.is_none() {
                    self.inbox.push_back(event);
                }
            },
            None => {},
        }
    }

    /// Tells the stream that its source has no more lines.
    pub fn close(&mut self)
        ensures
            final(self)@ == old(self)@.end_with(Ending::Eof),
    {
        if self.ending.is_none() {
            self.ending = Some(Ending::Eof);
        }
    }

    /// Tells the stream that reading its source failed.
    pub fn fail(&mut self)
        ensures
            final(self)@ == old(self)@.end_with(Ending::Failed),
    {
        if self.ending.is_none() {
            self.ending = Some(Ending::Failed);
        }
    }

    /// Pulls the next tick.
    ///
    /// A record held back is dealt with first, then the oldest record
    /// offered. With neither, the answer depends on the input: while it is
    /// open, `NeedInput`; after a failure, `Stopped`; after its end, a tick
    /// without a command for every instant up to the furthest promised fire
    /// time, then `End`. After a tick, `overflowed` tells whether it came
    /// with a warning.
    pub fn next(&mut self) -> (step: Step)
        ensures
            (final(self)@, step) == old(self)@.step(),
    {
        if let Some(pending) = self.pending_event.take() {
            return Step::Tick(self.process_event(pending));
        }
        if let Some(record) = self.inbox.pop_front() {
            proof {
                assert(old(self).inbox@.skip(1) == old(self).inbox@.subrange(
                    1,
                    old(self).inbox@.len() as int,
                ));
            }
            return Step::Tick(self.process_event(record));
        }
        match self.ending {
            None => Step::NeedInput,
            Some(Ending::Failed) => Step::Stopped,
            Some(Ending::Eof) => {
                let draining = match self.current_time {
                    Some(t) => t <= self.last_time,
                    None => false,
                };
                if draining {
                    Step::Tick(self.advance_time(None))
                } else {
                    Step::End
                }
            },
        }
    }

    /// The instant of the next tick, `None` once the last instant has had
    /// its tick.
    pub fn current_time(&self) -> (t: Option<u64>)
        ensures
            match t {
                Some(t) => self@.clock == t,
                None => self@.clock == end_of_time(),
            },
    {
        self.current_time
    }

    /// The furthest fire time promised so far.
    pub fn last_time(&self) -> (t: u64)
        ensures
            t == self@.last_time,
    {
        self.last_time
    }

    /// Whether the last tick came with a warning: it was a record that
    /// scheduled a fire beyond the last instant, and that promise was
    /// dropped. The tick itself holds the time and the delay.
    pub fn overflowed(&self) -> (b: bool)
        ensures
            b == self@.overflowed,
    {
        self.overflowed
    }

    /// The record held back, if there is one.
    pub fn pending_event(&self) -> (p: Option<Event>)
        ensures
            p == self@.pending,
    {
        self.pending_event
    }

    /// How the input ended, once it has.
    pub fn ending(&self) -> (e: Option<Ending>)
        ensures
            e == self@.ending,
    {
        self.ending
    }

    /// How many records are offered and not yet read.
    pub fn queued(&self) -> (n: usize)
        ensures
            n == self@.inbox.len(),
    {
        self.inbox.len()
    }
}


} // verus!
