//! The rewritten stream as a whole: what it is for a given document, and
//! what a caller gets who pulls to the end.

use crate::command::{commands, CommandView};
use crate::error::Failure;
use crate::event::{opens_example, EventView, ItemView, KindView};
use crate::machine::{recorded, step, Action, Machine, Phase, Step};
use crate::render::{transcript, Shown};
use vstd::prelude::*;

verus! {

/// The rewritten stream for the events `events`.
///
/// `open` is the body read so far of the example block that the events start
/// in, or `None` where they start outside one. `feed` is what the commands
/// write, in the order in which they run: of the first block's first command
/// first.
pub open spec fn woven(events: Seq<EventView>, open: Option<Seq<char>>, feed: Seq<Shown>) -> Seq<
    ItemView,
>
    decreases events.len(),
{
    if events.len() == 0 {
        Seq::empty()
    } else {
        let rest = events.drop_first();
        match open {
            None => if opens_example(events[0]) {
                woven(rest, Some(Seq::empty()), feed)
            } else {
                seq![ItemView::Passed(events[0])] + woven(rest, None, feed)
            },
            Some(body) => match events[0].kind {
                KindView::Text(text) => woven(rest, Some(body + text), feed),
                KindView::BlockEnd => seq![ItemView::Transcript(transcript(commands(body), feed))]
                    + woven(rest, None, feed.skip(commands(body).len() as int)),
                _ => seq![ItemView::Passed(events[0])] + woven(rest, Some(body), feed),
            },
        }
    }
}

/// The events of `events` that belong to no example block, in order: all but
/// the start, the text and the end of each example block.
pub open spec fn kept(events: Seq<EventView>, open: bool) -> Seq<EventView>
    decreases events.len(),
{
    if events.len() == 0 {
        Seq::empty()
    } else {
        let rest = events.drop_first();
        if open {
            match events[0].kind {
                KindView::Text(_) => kept(rest, true),
                KindView::BlockEnd => kept(rest, false),
                _ => seq![events[0]] + kept(rest, true),
            }
        } else if opens_example(events[0]) {
            kept(rest, true)
        } else {
            seq![events[0]] + kept(rest, false)
        }
    }
}

/// The number of example blocks that close in `events`.
pub open spec fn closed_blocks(events: Seq<EventView>, open: bool) -> nat
    decreases events.len(),
{
    if events.len() == 0 {
        0
    } else {
        let rest = events.drop_first();
        if open {
            match events[0].kind {
                KindView::BlockEnd => 1 + closed_blocks(rest, false),
                _ => closed_blocks(rest, true),
            }
        } else {
            closed_blocks(rest, opens_example(events[0]))
        }
    }
}

/// The number of events of `events` that open an example block.
pub open spec fn tagged_blocks(events: Seq<EventView>) -> nat
    decreases events.len(),
{
    if events.len() == 0 {
        0
    } else if opens_example(events[0]) {
        1 + tagged_blocks(events.drop_first())
    } else {
        tagged_blocks(events.drop_first())
    }
}

/// The commands of the example blocks that close in `events`, in order.
pub open spec fn planned(events: Seq<EventView>, open: Option<Seq<char>>) -> Seq<CommandView>
    decreases events.len(),
{
    if events.len() == 0 {
        Seq::empty()
    } else {
        let rest = events.drop_first();
        match open {
            None => if opens_example(events[0]) {
                planned(rest, Some(Seq::empty()))
            } else {
                planned(rest, None)
            },
            Some(body) => match events[0].kind {
                KindView::Text(text) => planned(rest, Some(body + text)),
                KindView::BlockEnd => commands(body) + planned(rest, None),
                _ => planned(rest, Some(body)),
            },
        }
    }
}

/// The events among `items` that were passed through, in order.
pub open spec fn passed(items: Seq<ItemView>) -> Seq<EventView>
    decreases items.len(),
{
    if items.len() == 0 {
        Seq::empty()
    } else {
        match items[0] {
            ItemView::Passed(event) => seq![event] + passed(items.drop_first()),
            ItemView::Transcript(_) => passed(items.drop_first()),
        }
    }
}

/// The number of transcripts among `items`.
pub open spec fn transcripts(items: Seq<ItemView>) -> nat
    decreases items.len(),
{
    if items.len() == 0 {
        0
    } else {
        match items[0] {
            ItemView::Passed(_) => transcripts(items.drop_first()),
            ItemView::Transcript(_) => 1 + transcripts(items.drop_first()),
        }
    }
}

/// How a run ended.
pub enum Ending {
    /// The stream was rewritten to its end.
    Done,
    /// The rewriter failed.
    Failed(Failure),
    /// A command ran of which the feed does not say what it wrote.
    Starved,
}

/// What a run came to.
pub struct Outcome {
    /// The items yielded, in order.
    pub items: Seq<ItemView>,
    /// The commands run, in order.
    pub ran: Seq<CommandView>,
    pub end: Ending,
}

/// The events of the machine's stream that are not read yet.
pub open spec fn unread(m: Machine) -> Seq<EventView> {
    if m.cursor <= m.upstream.len() {
        m.upstream.skip(m.cursor as int)
    } else {
        Seq::empty()
    }
}

/// A bound on the moves that a closed block still takes.
pub open spec fn weight(m: Machine) -> nat {
    match m.phase {
        Phase::Idle => 0,
        Phase::InBlock { .. } => 0,
        Phase::Emitting { .. } => 1,
        Phase::Running { commands, done, .. } => if done <= commands.len() {
            (2 + commands.len() - done) as nat
        } else {
            2
        },
    }
}

/// The run of the machine `m`: what a caller gets who pulls until the stream
/// ends or the rewriter fails, and who answers each command with the next
/// entry of `feed`.
pub open spec fn run(m: Machine, feed: Seq<Shown>) -> Outcome
    decreases unread(m).len(), weight(m),
{
    let stop = |end: Ending| Outcome { items: Seq::empty(), ran: Seq::empty(), end };
    match step(m) {
        Step::Fail(failure) => stop(Ending::Failed(failure)),
        Step::Quiet(next) => run(next, feed),
        Step::Yield(next, action) => match action {
            Action::End => stop(Ending::Done),
            Action::Open { .. } => run(next, feed),
            Action::Yield(item) => {
                let rest = run(next, feed);
                Outcome { items: seq![item] + rest.items, ..rest }
            },
            Action::Run { command, .. } => if feed.len() == 0 {
                stop(Ending::Starved)
            } else {
                let rest = run(recorded(next, feed[0].stdout, feed[0].stderr), feed.drop_first());
                Outcome { ran: seq![command] + rest.ran, ..rest }
            },
        },
    }
}

} // verus!
