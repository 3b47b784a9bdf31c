//! Commands read from live input, one per line.
//!
//! A line holds one integer: a delay to schedule a fire after, or a negative
//! number to cancel. Lines are offered as they are read; the stream hands the
//! commands out in that order, and `Quit` once the input has ended.

use crate::text::{chars_of, read_signed, signed_of, trim_bounds, trimmed};
use std::collections::VecDeque;
use vstd::prelude::*;

verus! {

/// A command to the scheduler.
#[derive(Clone, Copy, Debug, PartialEq, Eq, Structural)]
pub enum Command {
    /// Fire after this many time units, in place of whatever was pending.
    Schedule(u64),
    /// Drop whatever is pending.
    Cancel,
    /// The input has ended.
    Quit,
}

/// The command that the line `s` gives: a delay of 0 or more schedules, a
/// negative number cancels. `None` for a line that writes no integer.
pub open spec fn command_of_line(s: Seq<char>) -> Option<Command> {
    match signed_of(trimmed(s)) {
        Some(delay) => if delay >= 0 {
            Some(Command::Schedule(delay as u64))
        } else {
            Some(Command::Cancel)
        },
        None => None,
    }
}

/// Reads a line as one signed integer. White space at either end does not
/// count.
pub fn parse_command(line: &str) -> (r: Option<i64>)
    ensures
        r == signed_of(trimmed(line@)),
{
    let v = chars_of(line);
    let (lo, hi): (usize, usize) = trim_bounds(&v);
    read_signed(&v, lo, hi)
}

/// What a command stream is, as plain values.
pub struct CommandQueue {
    /// The commands offered and not yet handed out, oldest first.
    pub inbox: Seq<Command>,
    /// Whether the input has ended.
    pub closed: bool,
}

impl CommandQueue {
    /// The line `s` is offered. One that gives no command is dropped, and so
    /// is any line after the end of the input.
    pub open spec fn offer(self, s: Seq<char>) -> CommandQueue {
        match command_of_line(s) {
            Some(command) => if self.closed {
                self
            } else {
                CommandQueue { inbox: self.inbox.push(command), ..self }
            },
            None => self,
        }
    }

    /// One pull: the oldest command offered; with none left, `Quit` after
    /// the end of the input, and nothing before it.
    pub open spec fn pull(self) -> (CommandQueue, Option<Command>) {
        if self.inbox.len() > 0 {
            (CommandQueue { inbox: self.inbox.skip(1), ..self }, Some(self.inbox[0]))
        } else if self.closed {
            (self, Some(Command::Quit))
        } else {
            (self, None)
        }
    }
}

/// Turns lines of input into commands.
pub struct CommandStream {
    inbox: VecDeque<Command>,
    closed: bool,
}

impl View for CommandStream {
    type V = CommandQueue;

    closed spec fn view(&self) -> CommandQueue {
        CommandQueue { inbox: self.inbox@, closed: self.closed }
    }
}

impl CommandStream {
    /// A stream with nothing offered and its input open.
    pub fn new() -> (stream: CommandStream)
        ensures
            stream@ == (CommandQueue { inbox: Seq::empty(), closed: false }),
    {
        CommandStream { inbox: VecDeque::new(), closed: false }
    }

    /// Offers a line as it was read.
    pub fn push_line(&mut self, line: &str)
        ensures
            final(self)@ == old(self)@.offer(line@),
    {
        let delay: i64 = match parse_command(line) {
            Some(delay) => delay,
            None => {
                return ;
            },
        };
        if self.closed {
            return ;
        }
        if delay >= 0 {
            self.inbox.push_back(Command::Schedule(delay as u64));
        } else {
            self.inbox.push_back(Command::Cancel);
        }
    }

    /// Tells the stream that its input has ended.
    pub fn close(&mut self)
        ensures
            final(self)@ == (CommandQueue { closed: true, ..old(self)@ }),
    {
        self.closed = true;
    }

    /// Hands out the next command: the oldest one offered, or `Quit` once
    /// the input has ended and none is left. `None` asks for another line.
    pub fn next_command(&mut self) -> (r: Option<Command>)
        ensures
            (final(self)@, r) == old(self)@.pull(),
    {
        match self.inbox.pop_front() {
            Some(command) => {
                proof {
                    assert(old(self).inbox@.skip(1) == old(self).inbox@.subrange(
                        1,
                        old(self).inbox@.len() as int,
                    ));
                }
                Some(command)
            },
            None => if self.closed {
                Some(Command::Quit)
            } else {
                None
            },
        }
    }
}

} // verus!
