//! The rewriter as a state machine over plain values.
//!
//! The rewriter pulls events from the document's stream and yields the
//! rewritten stream, one item at a pull. Where a block of commands has to be
//! run it yields, in place of an event, what the caller is to do: open a
//! working directory for a new session, or run one command and hand back what
//! it wrote.

use crate::command::{commands, CommandView};
use crate::error::Failure;
use crate::event::{EventView, ItemView, KindView};
use crate::render::{entry, rendered, transcript_head, transcript_tail};
use crate::session::{slot_of, with_session};
use crate::tag::session_name;
use vstd::prelude::*;

verus! {

/// Where the rewriter stands between two events.
pub enum Phase {
    /// Outside any example block.
    Idle,
    /// Inside the example block of `session`, of which `body` was read so far.
    InBlock { session: Seq<char>, body: Seq<char> },
    /// The block is closed, and `done` of its commands have run; `transcript`
    /// holds what they are shown as. The session's directory is at `slot`.
    Running { slot: nat, commands: Seq<CommandView>, done: nat, transcript: Seq<char> },
    /// The transcript is complete, and is the next event to yield.
    Emitting { pending: Seq<char> },
}

/// The whole state of a rewriter.
pub struct Machine {
    /// The document's events.
    pub upstream: Seq<EventView>,
    /// How many of them were read.
    pub cursor: nat,
    pub phase: Phase,
    /// The names of the sessions opened so far, each at its slot.
    pub sessions: Seq<Seq<char>>,
}

/// What a pull yields.
pub enum Action {
    /// The next item of the rewritten stream.
    Yield(ItemView),
    /// The session `name` is new: its directory is to be made, at `slot`.
    Open { slot: nat, name: Seq<char> },
    /// `command` is to be run in the directory at `slot`, and what it wrote is
    /// to be handed back.
    Run { slot: nat, command: CommandView },
    /// The rewritten stream is complete.
    End,
}

/// What one move of the machine comes to.
pub enum Step {
    /// The machine moved on and has nothing to yield yet.
    Quiet(Machine),
    /// The machine moved on and yields an action.
    Yield(Machine, Action),
    /// The machine cannot move.
    Fail(Failure),
}

/// The machine before the first event of `upstream` is read.
pub open spec fn start(upstream: Seq<EventView>) -> Machine {
    Machine { upstream, cursor: 0, phase: Phase::Idle, sessions: Seq::empty() }
}

/// One move of the machine.
///
/// Outside a block, an event that opens an example block is taken in; any
/// other event is yielded as it is. Inside a block, text is added to the body
/// and a block end closes the block, both without being yielded; a block
/// start is refused; any other event is yielded as it is. A closed block has
/// its commands run one by one, and then yields its transcript.
pub open spec fn step(m: Machine) -> Step {
    let read = Machine { cursor: m.cursor + 1, ..m };
    match m.phase {
        Phase::Emitting { pending } => Step::Yield(
            Machine { phase: Phase::Idle, ..m },
            Action::Yield(ItemView::Transcript(pending)),
        ),
        Phase::Running { slot, commands, done, transcript } => if done < commands.len() {
            Step::Yield(m, Action::Run { slot, command: commands[done as int] })
        } else {
            Step::Quiet(
                Machine { phase: Phase::Emitting { pending: transcript + transcript_tail() }, ..m },
            )
        },
        Phase::Idle => if m.cursor >= m.upstream.len() {
            Step::Yield(m, Action::End)
        } else {
            let event = m.upstream[m.cursor as int];
            match event.kind {
                KindView::BlockStart(info) => match session_name(info) {
                    Some(session) => Step::Quiet(
                        Machine { phase: Phase::InBlock { session, body: Seq::empty() }, ..read },
                    ),
                    None => Step::Yield(read, Action::Yield(ItemView::Passed(event))),
                },
                _ => Step::Yield(read, Action::Yield(ItemView::Passed(event))),
            }
        },
        Phase::InBlock { session, body } => if m.cursor >= m.upstream.len() {
            Step::Fail(Failure::UnterminatedBlock)
        } else {
            let event = m.upstream[m.cursor as int];
            match event.kind {
                KindView::BlockStart(_) => Step::Fail(Failure::NestedBlock),
                KindView::Text(text) => Step::Quiet(
                    Machine { phase: Phase::InBlock { session, body: body + text }, ..read },
                ),
                KindView::BlockEnd => {
                    let slot = slot_of(m.sessions, session) as nat;
                    let closed = Machine {
                        phase: Phase::Running {
                            slot,
                            commands: commands(body),
                            done: 0,
                            transcript: transcript_head(),
                        },
                        sessions: with_session(m.sessions, session),
                        ..read
                    };
                    if slot == m.sessions.len() {
                        Step::Yield(closed, Action::Open { slot, name: session })
                    } else {
                        Step::Quiet(closed)
                    }
                },
                KindView::Other => Step::Yield(read, Action::Yield(ItemView::Passed(event))),
            }
        },
    }
}

/// A bound on the quiet moves that the machine can make in a row.
pub open spec fn fuel(m: Machine) -> nat {
    let unread = if m.cursor <= m.upstream.len() {
        m.upstream.len() - m.cursor
    } else {
        0
    };
    let closing: nat = if m.phase is Running {
        1
    } else {
        0
    };
    (2 * unread + closing) as nat
}

/// What a pull comes to: the machine after it, and what it yielded.
pub struct Pulled {
    pub machine: Machine,
    pub result: Result<Action, Failure>,
}

/// One pull: the machine moves until it has something to yield or cannot
/// move. Where it cannot move it stays as it was.
pub open spec fn pull(m: Machine) -> Pulled
    decreases fuel(m),
{
    match step(m) {
        Step::Quiet(next) => pull(next),
        Step::Yield(next, action) => Pulled { machine: next, result: Ok(action) },
        Step::Fail(failure) => Pulled { machine: m, result: Err(failure) },
    }
}

/// Whether a command is waiting for what it wrote.
pub open spec fn awaits_output(m: Machine) -> bool {
    m.phase matches Phase::Running { commands, done, .. } && done < commands.len()
}

/// The machine after the waiting command's output was recorded as the markup
/// `stdout` and `stderr`: the command's entry is added to the transcript, and
/// the next command is up.
pub open spec fn recorded(m: Machine, stdout: Seq<char>, stderr: Seq<char>) -> Machine {
    match m.phase {
        Phase::Running { slot, commands, done, transcript } => Machine {
            phase: Phase::Running {
                slot,
                commands,
                done: done + 1,
                transcript: transcript + entry(commands[done as int], stdout, stderr),
            },
            ..m
        },
        _ => m,
    }
}

/// The machine after the waiting command wrote the bytes `stdout` and
/// `stderr`. What a silent command wrote is not looked at. What a visible one
/// wrote is rendered, standard output first, and the first failure is the
/// result.
pub open spec fn supplied(m: Machine, stdout: Seq<u8>, stderr: Seq<u8>) -> Result<
    Machine,
    Failure,
> {
    match m.phase {
        Phase::Running { commands, done, .. } if done < commands.len() => {
            if commands[done as int].silent {
                Ok(recorded(m, Seq::empty(), Seq::empty()))
            } else {
                match rendered(stdout) {
                    Err(failure) => Err(failure),
                    Ok(out) => match rendered(stderr) {
                        Err(failure) => Err(failure),
                        Ok(err) => Ok(recorded(m, out, err)),
                    },
                }
            }
        },
        _ => Err(Failure::NothingPending),
    }
}

} // verus!
