use tick_scheduler::command_stream::{Command, CommandStream};
use tick_scheduler::event_stream::{Command as TickCommand, Event, EventStream, Step};
use tick_scheduler::scheduler::{Action, Effect, Scheduler};

fn effect(time: u64, action: Action) -> Effect {
    Effect { time, action }
}

fn replay(lines: &[&str]) -> (Vec<u64>, Vec<Effect>) {
    let mut stream = EventStream::new();
    for line in lines {
        stream.push_line(line);
    }
    stream.close();
    let mut scheduler = Scheduler::new();
    let mut times = Vec::new();
    let mut effects = Vec::new();
    loop {
        match stream.next() {
            Step::Tick(tick) => {
                times.push(tick.time);
                effects.extend(scheduler.process_tick(tick));
            }
            Step::End => break,
            other => panic!("{:?}", other),
        }
    }
    assert!(scheduler.is_empty() || scheduler.pending_fire().is_some());
    (times, effects)
}

#[test]
fn new_scheduler_is_idle() {
    let scheduler = Scheduler::new();
    assert!(scheduler.is_empty());
    assert_eq!(scheduler.pending_fire(), None);
}

#[test]
fn default_scheduler_is_idle() {
    let mut scheduler = Scheduler::default();
    assert!(scheduler.is_empty());
    assert_eq!(scheduler.pending_fire(), None);
    assert_eq!(
        scheduler.process_command(0, Command::Cancel),
        vec![effect(0, Action::CancelAnyPending)]
    );
}

#[test]
fn schedule_when_idle_arms() {
    let mut scheduler = Scheduler::new();
    let effects = scheduler.process_command(4, Command::Schedule(6));
    assert_eq!(effects, vec![effect(4, Action::ScheduleFiring(6))]);
    assert_eq!(scheduler.pending_fire(), Some(10));
    assert!(!scheduler.is_empty());
}

#[test]
fn schedule_when_armed_overwrites() {
    let mut scheduler = Scheduler::new();
    scheduler.process_command(0, Command::Schedule(2));
    let effects = scheduler.process_command(1, Command::Schedule(4));
    assert_eq!(
        effects,
        vec![effect(1, Action::CancelPending(2)), effect(1, Action::ScheduleFiring(4))]
    );
    assert_eq!(scheduler.pending_fire(), Some(5));
    assert!(!scheduler.next_fire(2));
    assert_eq!(scheduler.pending_fire(), Some(5));
    assert!(scheduler.next_fire(5));
    assert!(scheduler.is_empty());
}

#[test]
fn cancel_when_armed_clears() {
    let mut scheduler = Scheduler::new();
    scheduler.process_command(0, Command::Schedule(5));
    let effects = scheduler.process_command(2, Command::Cancel);
    assert_eq!(effects, vec![effect(2, Action::CancelPending(5))]);
    assert!(scheduler.is_empty());
    assert!(!scheduler.next_fire(5));
}

#[test]
fn cancel_when_idle_changes_nothing() {
    let mut scheduler = Scheduler::new();
    for time in [0, 1, 7] {
        let effects = scheduler.process_command(time, Command::Cancel);
        assert_eq!(effects, vec![effect(time, Action::CancelAnyPending)]);
        assert!(scheduler.is_empty());
    }
}

#[test]
fn quit_changes_nothing() {
    let mut scheduler = Scheduler::new();
    assert_eq!(scheduler.process_command(3, Command::Quit), vec![]);
    assert!(scheduler.is_empty());
    scheduler.process_command(3, Command::Schedule(1));
    assert_eq!(scheduler.process_command(3, Command::Quit), vec![]);
    assert_eq!(scheduler.pending_fire(), Some(4));
}

#[test]
fn overflowing_schedule_does_not_arm() {
    let mut scheduler = Scheduler::new();
    let effects = scheduler.process_command(u64::MAX, Command::Schedule(1));
    assert_eq!(effects, vec![effect(u64::MAX, Action::Overflow(1))]);
    assert!(scheduler.is_empty());
    scheduler.process_command(u64::MAX - 3, Command::Schedule(3));
    assert_eq!(scheduler.pending_fire(), Some(u64::MAX));
    let effects = scheduler.process_command(2, Command::Schedule(u64::MAX - 1));
    assert_eq!(effects, vec![effect(2, Action::Overflow(u64::MAX - 1))]);
    assert_eq!(scheduler.pending_fire(), Some(u64::MAX));
    let effects = scheduler.process_command(2, Command::Schedule(u64::MAX - 2));
    assert_eq!(
        effects,
        vec![
            effect(2, Action::CancelPending(u64::MAX)),
            effect(2, Action::ScheduleFiring(u64::MAX - 2))
        ]
    );
    assert_eq!(scheduler.pending_fire(), Some(u64::MAX));
}

#[test]
fn clear_pending_drops_the_fire() {
    let mut scheduler = Scheduler::new();
    scheduler.clear_pending();
    assert!(scheduler.is_empty());
    scheduler.process_command(0, Command::Schedule(9));
    scheduler.clear_pending();
    assert!(scheduler.is_empty());
    assert!(!scheduler.next_fire(9));
}

#[test]
fn fire_check_fires_only_at_the_armed_instant() {
    let mut scheduler = Scheduler::new();
    assert!(!scheduler.next_fire(0));
    scheduler.process_command(1, Command::Schedule(2));
    assert!(!scheduler.next_fire(1));
    assert!(!scheduler.next_fire(2));
    assert!(!scheduler.next_fire(4));
    assert_eq!(scheduler.pending_fire(), Some(3));
    assert!(scheduler.next_fire(3));
    assert!(scheduler.is_empty());
    assert!(!scheduler.next_fire(3));
}

#[test]
fn tick_applies_command_then_checks() {
    let mut scheduler = Scheduler::new();
    let tick = Event { time: 6, command: Some(TickCommand::Schedule(0)) };
    assert_eq!(
        scheduler.process_tick(tick),
        vec![effect(6, Action::ScheduleFiring(0)), effect(6, Action::FiringNow)]
    );
    assert!(scheduler.is_empty());
    scheduler.process_command(6, Command::Schedule(1));
    let tick = Event { time: 7, command: Some(TickCommand::Cancel) };
    assert_eq!(scheduler.process_tick(tick), vec![effect(7, Action::CancelPending(7))]);
    scheduler.process_command(7, Command::Schedule(1));
    let tick = Event { time: 8, command: Some(TickCommand::Schedule(0)) };
    assert_eq!(
        scheduler.process_tick(tick),
        vec![
            effect(8, Action::CancelPending(8)),
            effect(8, Action::ScheduleFiring(0)),
            effect(8, Action::FiringNow)
        ]
    );
    assert_eq!(scheduler.process_tick(Event { time: 9, command: None }), vec![]);
    scheduler.process_command(9, Command::Schedule(1));
    assert_eq!(
        scheduler.process_tick(Event { time: 10, command: None }),
        vec![effect(10, Action::FiringNow)]
    );
    assert!(scheduler.is_empty());
}

#[test]
fn replay_single_schedule_fires() {
    let (times, effects) = replay(&["0\t3"]);
    assert_eq!(times, vec![0, 1, 2, 3]);
    assert_eq!(effects, vec![effect(0, Action::ScheduleFiring(3)), effect(3, Action::FiringNow)]);
}

#[test]
fn replay_cancel_prevents_firing() {
    let (times, effects) = replay(&["0\t5", "2\t-1"]);
    assert_eq!(times, vec![0, 1, 2, 3, 4, 5]);
    assert_eq!(
        effects,
        vec![effect(0, Action::ScheduleFiring(5)), effect(2, Action::CancelPending(5))]
    );
}

#[test]
fn replay_reschedule_overwrites() {
    let (times, effects) = replay(&["0\t2", "1\t4"]);
    assert_eq!(times, vec![0, 1, 2, 3, 4, 5]);
    assert_eq!(
        effects,
        vec![
            effect(0, Action::ScheduleFiring(2)),
            effect(1, Action::CancelPending(2)),
            effect(1, Action::ScheduleFiring(4)),
            effect(5, Action::FiringNow),
        ]
    );
}

#[test]
fn replay_skips_garbage() {
    let (times, effects) = replay(&["0\t1", "garbage", "3\t1"]);
    assert_eq!(times, vec![0, 1, 2, 3, 4]);
    assert_eq!(
        effects,
        vec![
            effect(0, Action::ScheduleFiring(1)),
            effect(1, Action::FiringNow),
            effect(3, Action::ScheduleFiring(1)),
            effect(4, Action::FiringNow),
        ]
    );
    assert_eq!(replay(&["0\t1", "3\t1"]), (times, effects));
}

#[test]
fn replay_zero_delay_fires_in_the_same_tick() {
    let (times, effects) = replay(&["0\t0"]);
    assert_eq!(times, vec![0]);
    assert_eq!(effects, vec![effect(0, Action::ScheduleFiring(0)), effect(0, Action::FiringNow)]);
}

#[test]
fn replay_cancel_with_nothing_pending() {
    let (times, effects) = replay(&["1\t-1", "2\t-1"]);
    assert_eq!(times, vec![0, 1, 2]);
    assert_eq!(
        effects,
        vec![effect(1, Action::CancelAnyPending), effect(2, Action::CancelAnyPending)]
    );
}

#[test]
fn command_stream_hands_out_commands_in_order() {
    let mut stream = CommandStream::new();
    assert_eq!(stream.next_command(), None);
    for line in ["5\n", "abc\n", "-1\n", "-2\n", "\n", " 0 \n", "9223372036854775807"] {
        stream.push_line(line);
    }
    assert_eq!(stream.next_command(), Some(Command::Schedule(5)));
    assert_eq!(stream.next_command(), Some(Command::Cancel));
    assert_eq!(stream.next_command(), Some(Command::Cancel));
    assert_eq!(stream.next_command(), Some(Command::Schedule(0)));
    assert_eq!(stream.next_command(), Some(Command::Schedule(i64::MAX as u64)));
    assert_eq!(stream.next_command(), None);
    stream.push_line("7");
    stream.close();
    stream.push_line("8");
    assert_eq!(stream.next_command(), Some(Command::Schedule(7)));
    assert_eq!(stream.next_command(), Some(Command::Quit));
    assert_eq!(stream.next_command(), Some(Command::Quit));
}

#[test]
fn command_stream_cancels_on_any_negative_number() {
    for line in ["-1", "-2", "-17\n", " -9223372036854775808 "] {
        let mut stream = CommandStream::new();
        stream.push_line(line);
        stream.close();
        assert_eq!(stream.next_command(), Some(Command::Cancel), "line {:?}", line);
        assert_eq!(stream.next_command(), Some(Command::Quit));
    }
    let mut stream = CommandStream::new();
    stream.push_line("-0");
    assert_eq!(stream.next_command(), Some(Command::Schedule(0)));
}

#[test]
fn command_stream_quits_on_empty_input() {
    let mut stream = CommandStream::new();
    stream.close();
    assert_eq!(stream.next_command(), Some(Command::Quit));
}
