//! The event stream rewriter.

use crate::command::{command_views, split_commands, CommandLine};
use crate::error::Failure;
use crate::event::{event_views, Event, Item, Kind};
use crate::machine::{
    awaits_output, fuel, pull, recorded, start, step, supplied, Action, Machine, Phase, Step,
};
use crate::render::{close_transcript, open_transcript, push_entry, render, Output};
use crate::session::{Session, SessionStore};
use crate::tag::session_of;
use vstd::prelude::*;

verus! {

/// Where the rewriter stands between two events.
enum State {
    Idle,
    InBlock { session: String, body: String },
    Running { slot: usize, commands: Vec<CommandLine>, done: usize, transcript: String },
    Emitting { pending: String },
}

impl View for State {
    type V = Phase;

    closed spec fn view(&self) -> Phase {
        match self {
            State::Idle => Phase::Idle,
            State::InBlock { session, body } => Phase::InBlock { session: session@, body: body@ },
            State::Running { slot, commands, done, transcript } => Phase::Running {
                slot: *slot as nat,
                commands: command_views(commands@),
                done: *done as nat,
                transcript: transcript@,
            },
            State::Emitting { pending } => Phase::Emitting { pending: pending@ },
        }
    }
}

/// What a pull yields.
#[derive(Debug, PartialEq, Eq)]
pub enum Pull {
    /// The next item of the rewritten stream.
    Yield(Item),
    /// The session is new: the caller makes its directory, as the last of its
    /// list.
    Open(Session),
    /// The caller runs `command` in the directory at `slot`, and hands what it
    /// wrote to `supply`.
    Run { slot: usize, command: CommandLine },
    /// The rewritten stream is complete.
    End,
}

impl View for Pull {
    type V = Action;

    open spec fn view(&self) -> Action {
        match self {
            Pull::Yield(item) => Action::Yield(item@),
            Pull::Open(session) => Action::Open { slot: session.slot as nat, name: session.name@ },
            Pull::Run { slot, command } => Action::Run { slot: *slot as nat, command: command@ },
            Pull::End => Action::End,
        }
    }
}

/// Rewrites the events of one document, a pull at a time.
pub struct Rewriter {
    upstream: Vec<Event>,
    cursor: usize,
    state: State,
    sessions: SessionStore,
}

impl View for Rewriter {
    type V = Machine;

    closed spec fn view(&self) -> Machine {
        Machine {
            upstream: event_views(self.upstream@),
            cursor: self.cursor as nat,
            phase: self.state@,
            sessions: self.sessions@,
        }
    }
}

impl Rewriter {
    /// A rewriter at the start of the stream `events`, with no session open.
    pub fn new(events: Vec<Event>) -> (rewriter: Rewriter)
        ensures
            rewriter@ == start(event_views(events@)),
    {
        Rewriter { upstream: events, cursor: 0, state: State::Idle, sessions: SessionStore::new() }
    }

    /// Yields the next item of the rewritten stream, or what the caller has
    /// to do before there is one.
    ///
    /// While a command waits for its output, every pull yields that command
    /// again. After a failure the rewriter is as it was, and every further
    /// pull fails alike.
    pub fn next(&mut self) -> (pulled: Result<Pull, Failure>)
        ensures
            final(self)@ == pull(old(self)@).machine,
            match pulled {
                Ok(action) => pull(old(self)@).result == Ok::<Action, Failure>(action@),
                Err(failure) => pull(old(self)@).result == Err::<Action, Failure>(failure),
            },
    {
        loop
            invariant
                pull(self@) == pull(old(self)@),
            decreases fuel(self@),
        {
            let ghost before = self@;
            let mut state = State::Idle;
            core::mem::swap(&mut self.state, &mut state);
            match state {
                State::Emitting { pending } => {
                    return Ok(Pull::Yield(Item::Transcript(pending)));
                },
                State::Running { slot, commands, done, transcript } => {
                    if done < commands.len() {
                        let command = commands[done].clone();
                        self.state = State::Running { slot, commands, done, transcript };
                        assert(self@ == before);
                        return Ok(Pull::Run { slot, command });
                    }
                    let mut pending = transcript;
                    close_transcript(&mut pending);
                    self.state = State::Emitting { pending };
                    assert(step(before) == Step::Quiet(self@));
                },
                State::Idle => {
                    if self.cursor >= self.upstream.len() {
                        assert(self@ == before);
                        return Ok(Pull::End);
                    }
                    let event = self.upstream[self.cursor].clone();
                    self.cursor = self.cursor + 1;
                    let opened = match &event.kind {
                        Kind::BlockStart(info) => session_of(info.as_str()),
                        _ => None,
                    };
                    match opened {
                        Some(session) => {
                            self.state = State::InBlock { session, body: String::new() };
                            assert(step(before) == Step::Quiet(self@));
                        },
                        None => {
                            return Ok(Pull::Yield(Item::Passed(event)));
                        },
                    }
                },
                State::InBlock { session, body } => {
                    if self.cursor >= self.upstream.len() {
                        self.state = State::InBlock { session, body };
                        assert(self@ == before);
                        return Err(Failure::UnterminatedBlock);
                    }
                    let event = self.upstream[self.cursor].clone();
                    match &event.kind {
                        Kind::BlockStart(_) => {
                            self.state = State::InBlock { session, body };
                            assert(self@ == before);
                            return Err(Failure::NestedBlock);
                        },
                        Kind::Text(text) => {
                            let mut body = body;
                            body.append(text.as_str());
                            self.cursor = self.cursor + 1;
                            self.state = State::InBlock { session, body };
                            assert(step(before) == Step::Quiet(self@));
                        },
                        Kind::BlockEnd => {
                            self.cursor = self.cursor + 1;
                            let found = self.sessions.get_or_create(session.as_str());
                            let commands = split_commands(body.as_str());
                            self.state = State::Running {
                                slot: found.0,
                                commands,
                                done: 0,
                                transcript: open_transcript(),
                            };
                            if found.1 {
                                return Ok(Pull::Open(Session { slot: found.0, name: session }));
                            }
                            assert(step(before) == Step::Quiet(self@));
                        },
                        Kind::Other => {
                            self.cursor = self.cursor + 1;
                            self.state = State::InBlock { session, body };
                            return Ok(Pull::Yield(Item::Passed(event)));
                        },
                    }
                },
            }
        }
    }

    /// Records what the waiting command wrote, already rendered as the markup
    /// `stdout` and `stderr`, and moves on to the next command.
    pub fn record(&mut self, stdout: &str, stderr: &str) -> (done: Result<(), Failure>)
        ensures
            match done {
                Ok(_) => awaits_output(old(self)@) && final(self)@ == recorded(
                    old(self)@,
                    stdout@,
                    stderr@,
                ),
                Err(failure) => failure == Failure::NothingPending && !awaits_output(old(self)@)
                    && final(self)@ == old(self)@,
            },
    {
        let mut state = State::Idle;
        core::mem::swap(&mut self.state, &mut state);
        match state {
            State::Running { slot, commands, done, transcript } => {
                if done < commands.len() {
                    let mut transcript = transcript;
                    push_entry(&mut transcript, &commands[done], stdout, stderr);
                    self.state = State::Running { slot, commands, done: done + 1, transcript };
                    Ok(())
                } else {
                    self.state = State::Running { slot, commands, done, transcript };
                    Err(Failure::NothingPending)
                }
            },
            other => {
                self.state = other;
                Err(Failure::NothingPending)
            },
        }
    }

    /// Whether the waiting command is silent; `None` where no command waits.
    pub fn waiting_silent(&self) -> (silent: Option<bool>)
        ensures
            match silent {
                Some(s) => awaits_output(self@) && (self@.phase matches Phase::Running {
                    commands,
                    done,
                    ..
                } && commands[done as int].silent == s),
                None => !awaits_output(self@),
            },
    {
        match &self.state {
            State::Running { commands, done, .. } => {
                if *done < commands.len() {
                    Some(commands[*done].silent)
                } else {
                    None
                }
            },
            _ => None,
        }
    }

    /// Takes what the waiting command wrote, renders it, and records it.
    ///
    /// After a failure the rewriter is as it was.
    pub fn supply(&mut self, output: Output) -> (done: Result<(), Failure>)
        ensures
            match done {
                Ok(_) => supplied(old(self)@, output.stdout@, output.stderr@) == Ok::<
                    Machine,
                    Failure,
                >(final(self)@),
                Err(failure) => supplied(old(self)@, output.stdout@, output.stderr@) == Err::<
                    Machine,
                    Failure,
                >(failure) && final(self)@ == old(self)@,
            },
    {
        match self.waiting_silent() {
            None => Err(Failure::NothingPending),
            Some(true) => self.record("", ""),
            Some(false) => {
                let Output { stdout, stderr } = output;
                match render(stdout) {
                    Err(failure) => Err(failure),
                    Ok(out) => match render(stderr) {
                        Err(failure) => Err(failure),
                        Ok(err) => self.record(out.as_str(), err.as_str()),
                    },
                }
            },
        }
    }
}

} // verus!
