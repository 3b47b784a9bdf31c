//! What a generator hands out over a whole run, and what holds of it.

use crate::event_stream::{filler, record_of, Command, Ending, Event, Step, StreamState};
use crate::text::{first_tab, trimmed};
use vstd::prelude::*;

verus! {

impl StreamState {
    /// The records still to be taken in: the one held back, then the inbox.
    pub open spec fn upcoming(self) -> Seq<Event> {
        match self.pending {
            Some(p) => seq![p] + self.inbox,
            None => self.inbox,
        }
    }

    /// How many filler ticks stand before the next thing happens.
    pub open spec fn gap(self) -> int {
        match self.pending {
            Some(p) => if self.clock < p.time {
                p.time - self.clock
            } else {
                0
            },
            None => if self.clock <= self.last_time {
                self.last_time + 1 - self.clock
            } else {
                0
            },
        }
    }

    /// The ticks that successive pulls hand out, up to the first pull that
    /// gives no tick.
    pub open spec fn ticks(self) -> Seq<Event>
        decreases
            self.inbox.len(),
            (if self.pending is Some {
                1int
            } else {
                0int
            }),
            self.gap(),
    {
        match self.step().1 {
            Step::Tick(e) => seq![e] + self.step().0.ticks(),
            _ => Seq::empty(),
        }
    }

    /// The records still to be taken in come in order of time, each later
    /// than the one before, and none lies behind the clock.
    pub open spec fn in_order(self) -> bool {
        let u = self.upcoming();
        &&& forall|i: int, j: int| 0 <= i < j < u.len() ==> u[i].time < u[j].time
        &&& u.len() > 0 ==> self.clock <= u[0].time
    }
}

/// A pull leaves the clock at an instant, or at the one beyond the last.
pub proof fn lemma_step_keeps_valid(s: StreamState)
    requires
        s.valid(),
    ensures
        s.step().0.valid(),
{
}

/// Where the records come in order of time, a pull that gives a tick gives
/// the tick of the clock's instant, moves the clock on by one, and leaves the
/// records in order.
pub proof fn lemma_step_in_order(s: StreamState)
    requires
        s.valid(),
        s.in_order(),
        s.step().1 is Tick,
    ensures
        s.step().1->Tick_0.time == s.clock,
        s.step().0.clock == s.clock + 1,
        s.step().0.in_order(),
{
    let u = s.upcoming();
    let v = s.step().0.upcoming();
    if u.len() > 0 && s.clock >= u[0].time {
        assert(v == u.skip(1));
        assert forall|i: int, j: int| 0 <= i < j < v.len() implies v[i].time < v[j].time by {
            assert(v[i] == u[i + 1] && v[j] == u[j + 1]);
        }
    } else {
        assert(v == u);
    }
}

/// The ticks of a run count the instants one by one.
///
/// Where the records come in order of time, the ticks handed out from any
/// state on have the times `clock`, `clock + 1`, `clock + 2` and so on: none
/// is left out and none comes twice. A new stream starts at 0.
pub proof fn lemma_ticks_count_instants(s: StreamState)
    requires
        s.valid(),
        s.in_order(),
    ensures
        forall|i: int| 0 <= i < s.ticks().len() ==> (#[trigger] s.ticks()[i]).time == s.clock + i,
    decreases
        s.inbox.len(),
        (if s.pending is Some {
            1int
        } else {
            0int
        }),
        s.gap(),
{
    if s.step().1 is Tick {
        let next = s.step().0;
        lemma_step_in_order(s);
        lemma_ticks_count_instants(next);
        assert forall|i: int| 0 <= i < s.ticks().len() implies (#[trigger] s.ticks()[i]).time
            == s.clock + i by {
            if i > 0 {
                assert(s.ticks()[i] == next.ticks()[i - 1]);
            }
        }
    }
}

/// The state of a new stream to which `records` have been offered, and whose
/// input has ended as `ending` says, if it has.
pub open spec fn loaded(records: Seq<Event>, ending: Option<Ending>) -> StreamState {
    StreamState { inbox: records, ending, ..StreamState::fresh() }
}

/// The ticks of a new stream start at 0 and go up by one.
///
/// Whatever the gaps between the times of the records, as long as each
/// record is later than the one before it, the tick at place `i` of the run
/// has the time `i`.
pub proof fn lemma_run_counts_from_zero(records: Seq<Event>, ending: Option<Ending>)
    requires
        forall|i: int, j: int| 0 <= i < j < records.len() ==> records[i].time < records[j].time,
    ensures
        forall|i: int|
            0 <= i < loaded(records, ending).ticks().len() ==> (#[trigger] loaded(
                records,
                ending,
            ).ticks()[i]).time == i,
{
    lemma_ticks_count_instants(loaded(records, ending));
}

/// After the end of the input, with no record left, the run is the drain: a
/// tick without a command for each instant from the clock to the furthest
/// promised fire time, and no tick beyond it.
pub proof fn lemma_drain(s: StreamState)
    requires
        s.valid(),
        s.pending is None,
        s.inbox.len() == 0,
        s.ending == Some(Ending::Eof),
    ensures
        s.ticks().len() == s.gap(),
        forall|i: int| 0 <= i < s.ticks().len() ==> #[trigger] s.ticks()[i] == filler(s.clock + i),
    decreases s.gap(),
{
    if s.clock <= s.last_time {
        let next = s.step().0;
        lemma_drain(next);
        assert forall|i: int| 0 <= i < s.ticks().len() implies #[trigger] s.ticks()[i] == filler(
            s.clock + i,
        ) by {
            if i > 0 {
                assert(s.ticks()[i] == next.ticks()[i - 1]);
            }
        }
    }
}

/// Drain completeness.
///
/// Let the input have ended with one record `r` still to be taken in, and
/// let `r` schedule a fire at the instant `r.time + delay`, which is a `u64`
/// and not before any fire time promised earlier. Then the run goes on up to
/// the tick of that instant and stops there: the last tick has that time and
/// no tick has a later one. Where `r` does not lie behind the clock, the run
/// has exactly one tick for each instant from the clock to that one, and the
/// tick of the record's own instant is the record.
pub proof fn lemma_drain_reaches_fire_time(s: StreamState, r: Event, delay: u64)
    requires
        s.valid(),
        s.upcoming() == seq![r],
        s.ending == Some(Ending::Eof),
        r.command == Some(Command::Schedule(delay)),
        r.time + delay <= u64::MAX,
        s.last_time <= r.time + delay,
    ensures
        s.ticks().len() > 0,
        s.ticks().last().time == r.time + delay,
        forall|i: int| 0 <= i < s.ticks().len() ==> (#[trigger] s.ticks()[i]).time <= r.time + delay,
        s.clock <= r.time ==> s.ticks().len() == r.time + delay + 1 - s.clock,
        s.clock <= r.time ==> s.ticks()[r.time - s.clock] == r,
    decreases
        s.inbox.len(),
        (if s.pending is Some {
            1int
        } else {
            0int
        }),
        s.gap(),
{
    let next = s.step().0;
    let t = s.ticks();
    assert(s.upcoming()[0] == r);
    if s.clock < r.time {
        // A filler tick, and `r` is held back.
        assert(next.upcoming() == seq![r]);
        lemma_drain_reaches_fire_time(next, r, delay);
    } else {
        // The tick of `r`, and the drain after it.
        assert(next.last_time == r.time + delay);
        lemma_drain(next);
    }
    assert forall|i: int| 0 < i < t.len() implies t[i] == next.ticks()[i - 1] by {}
    assert(t.len() == next.ticks().len() + 1);
}

/// The last instant that the record `e` reaches: the instant of the fire
/// that it schedules, and its own time where it schedules none.
pub open spec fn reach(e: Event) -> int {
    match e.command {
        Some(Command::Schedule(delay)) => e.time + delay,
        _ => e.time as int,
    }
}

/// The last instant that any of `records` reaches, 0 where there is none.
pub open spec fn furthest(records: Seq<Event>) -> int
    decreases records.len(),
{
    if records.len() == 0 {
        0
    } else {
        let rest = furthest(records.drop_first());
        if reach(records.first()) > rest {
            reach(records.first())
        } else {
            rest
        }
    }
}

/// Whether one of `records` has the time `time`.
pub open spec fn holds_time(records: Seq<Event>, time: int) -> bool {
    exists|i: int| 0 <= i < records.len() && #[trigger] records[i].time == time
}

impl StreamState {
    /// The last instant that a run from here has to reach: the furthest
    /// promised fire time, or what the records still to come reach.
    pub open spec fn horizon(self) -> int {
        if furthest(self.upcoming()) > self.last_time {
            furthest(self.upcoming())
        } else {
            self.last_time as int
        }
    }
}

/// No record reaches further than `furthest` says, and `furthest` is no
/// instant before 0.
pub proof fn lemma_furthest_bounds(records: Seq<Event>, i: int)
    requires
        0 <= i < records.len(),
    ensures
        records[i].time <= reach(records[i]) <= furthest(records),
        0 <= furthest(records),
    decreases records.len(),
{
    if i > 0 {
        lemma_furthest_bounds(records.drop_first(), i - 1);
    } else if records.len() > 1 {
        lemma_furthest_bounds(records.drop_first(), 0);
    } else {
        assert(records.drop_first().len() == 0);
    }
}

/// The whole run after the end of the input.
///
/// Let the input have ended, the records still to come be in order of time,
/// and none of them schedule a fire beyond the last instant. Then the run
/// from here has one tick for each instant from the clock to the horizon and
/// none beyond; each record is the tick of its own time; and the tick of an
/// instant at which no record stands carries no command.
pub proof fn lemma_whole_run(s: StreamState)
    requires
        s.valid(),
        s.in_order(),
        s.ending == Some(Ending::Eof),
        forall|i: int| 0 <= i < s.upcoming().len() ==> reach(#[trigger] s.upcoming()[i]) <= u64::MAX,
    ensures
        s.ticks().len() == (if s.horizon() >= s.clock {
            s.horizon() + 1 - s.clock
        } else {
            0
        }),
        forall|i: int|
            0 <= i < s.upcoming().len() ==> 0 <= (#[trigger] s.upcoming()[i]).time - s.clock
                < s.ticks().len() && s.ticks()[s.upcoming()[i].time - s.clock] == s.upcoming()[i],
        forall|k: int|
            0 <= k < s.ticks().len() && !holds_time(s.upcoming(), s.clock + k)
                ==> #[trigger] s.ticks()[k] == filler(s.clock + k),
    decreases
        s.inbox.len(),
        (if s.pending is Some {
            1int
        } else {
            0int
        }),
        s.gap(),
{
    let u = s.upcoming();
    let t = s.ticks();
    if u.len() == 0 {
        lemma_drain(s);
    } else {
        let r = u[0];
        let next = s.step().0;
        let v = next.upcoming();
        let tn = next.ticks();
        lemma_step_in_order(s);
        lemma_furthest_bounds(u, 0);
        assert(u.drop_first() == u.skip(1));
        assert(t == seq![s.step().1->Tick_0] + tn);
        if s.clock < r.time {
            assert(v == u);
            lemma_whole_run(next);
            assert forall|i: int| 0 <= i < u.len() implies 0 <= (#[trigger] u[i]).time - s.clock
                < t.len() && t[u[i].time - s.clock] == u[i] by {
                assert(v[i] == u[i]);
                assert(t[u[i].time - s.clock] == tn[u[i].time - next.clock]);
            }
            assert forall|k: int|
                0 <= k < t.len() && !holds_time(u, s.clock + k) implies #[trigger] t[k] == filler(
                s.clock + k,
            ) by {
                if k > 0 {
                    assert(t[k] == tn[k - 1]);
                }
            }
        } else {
            assert(v == u.skip(1));
            assert forall|i: int| 0 <= i < v.len() implies reach(#[trigger] v[i]) <= u64::MAX by {
                assert(v[i] == u[i + 1]);
            }
            lemma_whole_run(next);
            if v.len() > 0 {
                lemma_furthest_bounds(v, 0);
            }
            assert(t[0] == r);
            assert forall|i: int| 0 <= i < u.len() implies 0 <= (#[trigger] u[i]).time - s.clock
                < t.len() && t[u[i].time - s.clock] == u[i] by {
                if i > 0 {
                    assert(v[i - 1] == u[i]);
                    assert(t[u[i].time - s.clock] == tn[v[i - 1].time - next.clock]);
                }
            }
            assert forall|k: int|
                0 <= k < t.len() && !holds_time(u, s.clock + k) implies #[trigger] t[k] == filler(
                s.clock + k,
            ) by {
                if k > 0 {
                    assert(t[k] == tn[k - 1]);
                    if holds_time(v, next.clock + (k - 1)) {
                        let i = choose|i: int|
                            0 <= i < v.len() && #[trigger] v[i].time == next.clock + (k - 1);
                        assert(u[i + 1].time == s.clock + k);
                    }
                } else {
                    assert(u[0].time == s.clock + 0);
                }
            }
        }
    }
}

/// The run of a whole log.
///
/// Let every record of a log be later than the one before it, and none
/// schedule a fire beyond the last instant. Read to its end by a new stream,
/// the log gives one tick more than the furthest instant that any record
/// reaches. The tick at place `k` has the time `k`. Each record is the tick
/// of its own time, and every other tick carries no command.
pub proof fn lemma_whole_log(records: Seq<Event>)
    requires
        forall|i: int, j: int| 0 <= i < j < records.len() ==> records[i].time < records[j].time,
        forall|i: int| 0 <= i < records.len() ==> reach(#[trigger] records[i]) <= u64::MAX,
    ensures
        loaded(records, Some(Ending::Eof)).ticks().len() == furthest(records) + 1,
        forall|k: int|
            0 <= k < loaded(records, Some(Ending::Eof)).ticks().len() ==> (#[trigger] loaded(
                records,
                Some(Ending::Eof),
            ).ticks()[k]).time == k,
        forall|i: int|
            0 <= i < records.len() ==> loaded(records, Some(Ending::Eof)).ticks()[
                (#[trigger] records[i]).time as int
            ] == records[i],
        forall|k: int|
            0 <= k < loaded(records, Some(Ending::Eof)).ticks().len() && !holds_time(records, k)
                ==> #[trigger] loaded(records, Some(Ending::Eof)).ticks()[k] == filler(k),
{
    let s = loaded(records, Some(Ending::Eof));
    assert(s.upcoming() == records);
    if records.len() > 0 {
        lemma_furthest_bounds(records, 0);
    }
    lemma_whole_run(s);
    lemma_ticks_count_instants(s);
    assert forall|i: int| 0 <= i < records.len() implies s.ticks()[
        (#[trigger] records[i]).time as int
    ] == records[i] by {
        assert(s.upcoming()[i] == records[i]);
    }
}

/// A malformed line is skipped.
///
/// A line that writes no record leaves the clock, the furthest promised fire
/// time and everything else as they were, so no tick comes of it and the run
/// is the one without it. A line with no tab in it, such as one whose second
/// field is missing, is such a line.
pub proof fn lemma_malformed_line_is_skipped(s: StreamState, line: Seq<char>)
    requires
        record_of(trimmed(line)) is None,
    ensures
        s.offer_line(line) == s,
        s.offer_line(line).ticks() == s.ticks(),
{
}

/// A line with no tab in it writes no record.
pub proof fn lemma_line_without_tab_is_malformed(line: Seq<char>)
    requires
        first_tab(trimmed(line)) == trimmed(line).len(),
    ensures
        record_of(trimmed(line)) is None,
{
}

} // verus!
