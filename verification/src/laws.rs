//! What holds of every run of the rewriter.

use crate::command::{commands, CommandView};
use crate::event::{opens_example, EventView, ItemView, KindView};
use crate::error::Failure;
use crate::machine::{
    fuel, pull, recorded, start, step, supplied, Action, Machine, Phase, Step,
};
use crate::markdown::{markdown_events, placed};
use crate::render::{entries, entry, transcript, transcript_head, transcript_tail, Shown};
use crate::session::{lemma_slot_of, slot_of, with_session};
use crate::stream::{
    closed_blocks, kept, passed, planned, run, tagged_blocks, transcripts, unread, weight, woven,
    Ending, Outcome,
};
use crate::tag::session_name;
use vstd::prelude::*;

verus! {

/// The entries of a list of commands are the first command's entry, then the
/// entries of the others.
pub proof fn lemma_entries_front(list: Seq<CommandView>, shown: Seq<Shown>)
    requires
        0 < list.len() <= shown.len(),
    ensures
        entries(list, shown) == entry(list[0], shown[0].stdout, shown[0].stderr) + entries(
            list.drop_first(),
            shown.drop_first(),
        ),
    decreases list.len(),
{
    let last = list.len() - 1;
    let tail = entry(list[last], shown[last].stdout, shown[last].stderr);
    if list.len() == 1 {
        assert(list.drop_last().len() == 0);
        assert(list.drop_first().len() == 0);
        assert(entries(list.drop_last(), shown) == Seq::<char>::empty());
        assert(entries(list.drop_first(), shown.drop_first()) == Seq::<char>::empty());
        assert(entries(list, shown) == Seq::<char>::empty() + tail);
        assert(tail + Seq::<char>::empty() == Seq::<char>::empty() + tail);
    } else {
        lemma_entries_front(list.drop_last(), shown);
        let head = entry(list[0], shown[0].stdout, shown[0].stderr);
        let inner = entries(list.drop_last().drop_first(), shown.drop_first());
        assert(list.drop_last()[0] == list[0]);
        assert(list.drop_first().drop_last() == list.drop_last().drop_first());
        assert(list.drop_first().last() == list[last]);
        assert(shown.drop_first()[last - 1] == shown[last]);
        assert(entries(list.drop_first(), shown.drop_first()) == inner + tail);
        assert((head + inner) + tail == head + (inner + tail));
    }
}

/// The commands of `list` that have not run when `done` of them have.
pub open spec fn remaining(list: Seq<CommandView>, done: nat) -> Seq<CommandView> {
    if done <= list.len() {
        list.skip(done as int)
    } else {
        Seq::empty()
    }
}

/// What is still to come from the machine `m` if the commands write `feed`:
/// the transcript underway, if a block is closed, and the rewritten rest of
/// the stream.
pub open spec fn expected(m: Machine, feed: Seq<Shown>) -> Seq<ItemView> {
    match m.phase {
        Phase::Idle => woven(unread(m), None, feed),
        Phase::InBlock { body, .. } => woven(unread(m), Some(body), feed),
        Phase::Running { commands, done, transcript, .. } => {
            let left = remaining(commands, done);
            seq![ItemView::Transcript(transcript + entries(left, feed) + transcript_tail())] + woven(
                unread(m),
                None,
                feed.skip(left.len() as int),
            )
        },
        Phase::Emitting { pending } => seq![ItemView::Transcript(pending)] + woven(
            unread(m),
            None,
            feed,
        ),
    }
}

/// A run that reaches the end of the stream yields exactly the rewritten
/// stream, from wherever the machine stands.
pub proof fn lemma_run_is_expected(m: Machine, feed: Seq<Shown>)
    requires
        run(m, feed).end == Ending::Done,
    ensures
        run(m, feed).items == expected(m, feed),
        m.phase matches Phase::Running { commands, done, .. } ==> feed.len() >= remaining(
            commands,
            done,
        ).len(),
    decreases unread(m).len(), weight(m),
{
    let rest = unread(m);
    if m.cursor < m.upstream.len() {
        assert(rest[0] == m.upstream[m.cursor as int]);
        assert(rest.drop_first() == m.upstream.skip(m.cursor as int + 1));
    }
    match m.phase {
        Phase::Emitting { pending } => {
            let next = Machine { phase: Phase::Idle, ..m };
            lemma_run_is_expected(next, feed);
        },
        Phase::Running { slot, commands, done, transcript } => {
            let left = remaining(commands, done);
            if done < commands.len() {
                let next = recorded(m, feed[0].stdout, feed[0].stderr);
                lemma_run_is_expected(next, feed.drop_first());
                let after = remaining(commands, done + 1);
                assert(left.drop_first() == after);
                assert(left[0] == commands[done as int]);
                lemma_entries_front(left, feed);
                assert(feed.drop_first().skip(after.len() as int) == feed.skip(left.len() as int));
                let added = entry(commands[done as int], feed[0].stdout, feed[0].stderr);
                let more = entries(after, feed.drop_first());
                assert((transcript + added) + more + transcript_tail() == transcript + (added
                    + more) + transcript_tail());
            } else {
                let next = Machine {
                    phase: Phase::Emitting { pending: transcript + transcript_tail() },
                    ..m
                };
                lemma_run_is_expected(next, feed);
                assert(left.len() == 0);
                assert(entries(left, feed) == Seq::<char>::empty());
                assert(transcript + Seq::<char>::empty() == transcript);
                assert(feed.skip(0) == feed);
            }
        },
        Phase::Idle => {
            if m.cursor < m.upstream.len() {
                let read = Machine { cursor: m.cursor + 1, ..m };
                match m.upstream[m.cursor as int].kind {
                    KindView::BlockStart(info) => match session_name(info) {
                        Some(session) => {
                            let next = Machine {
                                phase: Phase::InBlock { session, body: Seq::empty() },
                                ..read
                            };
                            lemma_run_is_expected(next, feed);
                        },
                        None => {
                            lemma_run_is_expected(read, feed);
                        },
                    },
                    _ => {
                        lemma_run_is_expected(read, feed);
                    },
                }
            }
        },
        Phase::InBlock { session, body } => {
            if m.cursor < m.upstream.len() {
                let read = Machine { cursor: m.cursor + 1, ..m };
                match step(m) {
                    Step::Quiet(next) => {
                        lemma_run_is_expected(next, feed);
                    },
                    Step::Yield(next, _) => {
                        lemma_run_is_expected(next, feed);
                    },
                    Step::Fail(_) => {},
                }
                if m.upstream[m.cursor as int].kind is BlockEnd {
                    let list = commands(body);
                    assert(remaining(list, 0) == list);
                    assert(transcript_head() + entries(list, feed) + transcript_tail()
                        == transcript(list, feed));
                }
            }
        },
    }
}

/// A caller who pulls to the end of the stream `events`, and who answers
/// each command with the next entry of `feed`, gets the rewritten stream.
pub proof fn theorem_rewritten_stream(events: Seq<EventView>, feed: Seq<Shown>)
    requires
        run(start(events), feed).end == Ending::Done,
    ensures
        run(start(events), feed).items == woven(events, None, feed),
{
    lemma_run_is_expected(start(events), feed);
    assert(events.skip(0) == events);
}

/// The commands that the machine `m` has still to run for the block that it
/// has closed.
pub open spec fn waiting(m: Machine) -> Seq<CommandView> {
    match m.phase {
        Phase::Running { commands, done, .. } => remaining(commands, done),
        _ => Seq::empty(),
    }
}

/// The body read so far of the block that the machine `m` is in.
pub open spec fn open_body(m: Machine) -> Option<Seq<char>> {
    match m.phase {
        Phase::InBlock { body, .. } => Some(body),
        _ => None,
    }
}

/// A run that reaches the end of the stream runs the commands that wait,
/// then those of every later block, and yields one transcript for the block
/// underway and one for every later block.
pub proof fn lemma_run_counts(m: Machine, feed: Seq<Shown>)
    requires
        run(m, feed).end == Ending::Done,
    ensures
        run(m, feed).ran == waiting(m) + planned(unread(m), open_body(m)),
        transcripts(run(m, feed).items) == tagged_blocks(unread(m)) + if m.phase is Idle {
            0nat
        } else {
            1nat
        },
    decreases unread(m).len(), weight(m),
{
    let rest = unread(m);
    let whole = run(m, feed);
    if m.cursor < m.upstream.len() {
        assert(rest[0] == m.upstream[m.cursor as int]);
        assert(rest.drop_first() == m.upstream.skip(m.cursor as int + 1));
    }
    match step(m) {
        Step::Fail(_) => {},
        Step::Quiet(next) => {
            lemma_run_counts(next, feed);
            if m.phase is Running {
                assert(waiting(m) == Seq::<CommandView>::empty());
            }
            if next.phase is Running && !(m.phase is Running) {
                let list = next.phase->Running_commands;
                assert(remaining(list, 0) == list);
            }
            assert(whole.ran == waiting(m) + planned(rest, open_body(m)));
        },
        Step::Yield(next, action) => match action {
            Action::End => {
                assert(whole.ran == waiting(m) + planned(rest, open_body(m)));
            },
            Action::Open { .. } => {
                lemma_run_counts(next, feed);
                let list = next.phase->Running_commands;
                assert(remaining(list, 0) == list);
            },
            Action::Yield(item) => {
                lemma_run_counts(next, feed);
                let later = run(next, feed);
                assert((seq![item] + later.items).drop_first() == later.items);
                assert(whole.ran == waiting(m) + planned(rest, open_body(m)));
            },
            Action::Run { command, .. } => {
                let after = recorded(next, feed[0].stdout, feed[0].stderr);
                lemma_run_counts(after, feed.drop_first());
                let later = run(after, feed.drop_first());
                assert(waiting(m).drop_first() == waiting(after));
                assert(waiting(m)[0] == command);
                assert(seq![command] + (waiting(after) + planned(rest, None)) == waiting(m)
                    + planned(rest, None));
            },
        },
    }
}

/// In a run to the end of the document, every command of every example
/// block runs once, the silent ones too, in the order of the document.
pub proof fn theorem_commands_run_in_order(events: Seq<EventView>, feed: Seq<Shown>)
    requires
        run(start(events), feed).end == Ending::Done,
    ensures
        run(start(events), feed).ran == planned(events, None),
{
    lemma_run_counts(start(events), feed);
    assert(events.skip(0) == events);
    assert(Seq::<CommandView>::empty() + planned(events, None) == planned(events, None));
}

/// In a run to the end of the document, the rewritten stream holds one
/// transcript for each event that opens an example block, and besides the
/// transcripts exactly the events that belong to no example block.
pub proof fn theorem_blocks_are_replaced(events: Seq<EventView>, feed: Seq<Shown>)
    requires
        run(start(events), feed).end == Ending::Done,
    ensures
        transcripts(run(start(events), feed).items) == tagged_blocks(events),
        passed(run(start(events), feed).items) == kept(events, false),
{
    lemma_run_counts(start(events), feed);
    assert(events.skip(0) == events);
    theorem_rewritten_stream(events, feed);
    lemma_passed_is_kept(events, None, feed);
}

/// A pull opens sessions at most: every session that was open keeps its
/// slot.
pub proof fn lemma_pull_keeps_sessions(m: Machine)
    ensures
        m.sessions.len() <= pull(m).machine.sessions.len(),
        forall|slot: int|
            0 <= slot < m.sessions.len() ==> pull(m).machine.sessions[slot] == m.sessions[slot],
    decreases fuel(m),
{
    match step(m) {
        Step::Quiet(next) => {
            lemma_pull_keeps_sessions(next);
        },
        _ => {},
    }
}

/// The block that closes runs at the slot of its session: the slot that the
/// name had, or a new one where it had none.
pub proof fn lemma_closed_block_has_its_slot(m: Machine)
    requires
        m.phase is InBlock,
        m.cursor < m.upstream.len(),
        m.upstream[m.cursor as int].kind is BlockEnd,
    ensures
        ({
            let session = m.phase->InBlock_session;
            let closed = match step(m) {
                Step::Quiet(next) => next,
                Step::Yield(next, _) => next,
                Step::Fail(_) => m,
            };
            &&& closed.phase is Running
            &&& closed.phase->Running_slot == slot_of(m.sessions, session)
            &&& closed.sessions == with_session(m.sessions, session)
            &&& closed.phase->Running_slot < closed.sessions.len()
            &&& closed.sessions[closed.phase->Running_slot as int] == session
            &&& step(m) is Yield <==> slot_of(m.sessions, session) == m.sessions.len()
        }),
{
    lemma_slot_of(m.sessions, m.phase->InBlock_session);
}

/// Pass-through: every event that belongs to no example block stands in the
/// rewritten stream as it was, in its place among the others, whatever the
/// commands write.
pub proof fn lemma_passed_is_kept(events: Seq<EventView>, open: Option<Seq<char>>, feed: Seq<Shown>)
    ensures
        passed(woven(events, open, feed)) == kept(events, open is Some),
    decreases events.len(),
{
    if events.len() > 0 {
        let rest = events.drop_first();
        let first = ItemView::Passed(events[0]);
        match open {
            None => {
                if opens_example(events[0]) {
                    lemma_passed_is_kept(rest, Some(Seq::empty()), feed);
                } else {
                    lemma_passed_is_kept(rest, None, feed);
                    let tail = woven(rest, None, feed);
                    assert((seq![first] + tail).drop_first() == tail);
                }
            },
            Some(body) => match events[0].kind {
                KindView::Text(text) => {
                    lemma_passed_is_kept(rest, Some(body + text), feed);
                },
                KindView::BlockEnd => {
                    let later = feed.skip(commands(body).len() as int);
                    lemma_passed_is_kept(rest, None, later);
                    let tail = woven(rest, None, later);
                    let block = ItemView::Transcript(transcript(commands(body), feed));
                    assert((seq![block] + tail).drop_first() == tail);
                },
                _ => {
                    lemma_passed_is_kept(rest, Some(body), feed);
                    let tail = woven(rest, Some(body), feed);
                    assert((seq![first] + tail).drop_first() == tail);
                },
            },
        }
    }
}

/// The rewritten stream holds one transcript for each example block that
/// closes in the document.
pub proof fn lemma_one_transcript_per_block(
    events: Seq<EventView>,
    open: Option<Seq<char>>,
    feed: Seq<Shown>,
)
    ensures
        transcripts(woven(events, open, feed)) == closed_blocks(events, open is Some),
    decreases events.len(),
{
    if events.len() > 0 {
        let rest = events.drop_first();
        let first = ItemView::Passed(events[0]);
        match open {
            None => {
                if opens_example(events[0]) {
                    lemma_one_transcript_per_block(rest, Some(Seq::empty()), feed);
                } else {
                    lemma_one_transcript_per_block(rest, None, feed);
                    let tail = woven(rest, None, feed);
                    assert((seq![first] + tail).drop_first() == tail);
                }
            },
            Some(body) => match events[0].kind {
                KindView::Text(text) => {
                    lemma_one_transcript_per_block(rest, Some(body + text), feed);
                },
                KindView::BlockEnd => {
                    let later = feed.skip(commands(body).len() as int);
                    lemma_one_transcript_per_block(rest, None, later);
                    let tail = woven(rest, None, later);
                    let block = ItemView::Transcript(transcript(commands(body), feed));
                    assert((seq![block] + tail).drop_first() == tail);
                },
                _ => {
                    lemma_one_transcript_per_block(rest, Some(body), feed);
                    let tail = woven(rest, Some(body), feed);
                    assert((seq![first] + tail).drop_first() == tail);
                },
            },
        }
    }
}

/// Whether every event of `events` has a position below `bound`.
pub open spec fn within(events: Seq<EventView>, bound: nat) -> bool {
    forall|i: int| 0 <= i < events.len() ==> (#[trigger] events[i]).at < bound
}

/// The rewritten stream passes no event on that the document does not hold.
pub proof fn lemma_woven_is_placed(
    events: Seq<EventView>,
    open: Option<Seq<char>>,
    feed: Seq<Shown>,
    bound: nat,
)
    requires
        within(events, bound),
    ensures
        placed(woven(events, open, feed), bound),
    decreases events.len(),
{
    if events.len() > 0 {
        let rest = events.drop_first();
        assert(within(rest, bound)) by {
            assert forall|i: int| 0 <= i < rest.len() implies (#[trigger] rest[i]).at < bound by {
                assert(rest[i] == events[i + 1]);
            }
        }
        let whole = woven(events, open, feed);
        let tail = match open {
            None => if opens_example(events[0]) {
                woven(rest, Some(Seq::empty()), feed)
            } else {
                woven(rest, None, feed)
            },
            Some(body) => match events[0].kind {
                KindView::Text(text) => woven(rest, Some(body + text), feed),
                KindView::BlockEnd => woven(rest, None, feed.skip(commands(body).len() as int)),
                _ => woven(rest, Some(body), feed),
            },
        };
        match open {
            None => if opens_example(events[0]) {
                lemma_woven_is_placed(rest, Some(Seq::empty()), feed, bound);
            } else {
                lemma_woven_is_placed(rest, None, feed, bound);
            },
            Some(body) => match events[0].kind {
                KindView::Text(text) => {
                    lemma_woven_is_placed(rest, Some(body + text), feed, bound);
                },
                KindView::BlockEnd => {
                    lemma_woven_is_placed(
                        rest,
                        None,
                        feed.skip(commands(body).len() as int),
                        bound,
                    );
                },
                _ => {
                    lemma_woven_is_placed(rest, Some(body), feed, bound);
                },
            },
        }
        assert forall|i: int| 0 <= i < whole.len() implies (#[trigger] whole[i]
            matches ItemView::Passed(event) ==> event.at < bound) by {
            if whole.len() == tail.len() {
                assert(whole[i] == tail[i]);
            } else if i > 0 {
                assert(whole[i] == tail[i - 1]);
            } else {
                assert(events[0].at < bound);
            }
        }
    }
}

/// The stream that a run to the end yields for a parsed document holds only
/// events of that document: the serializer knows each of them.
pub proof fn theorem_rewritten_document_is_placed(text: Seq<char>, feed: Seq<Shown>)
    requires
        run(start(markdown_events(text)), feed).end == Ending::Done,
    ensures
        placed(run(start(markdown_events(text)), feed).items, markdown_events(text).len()),
{
    let events = markdown_events(text);
    theorem_rewritten_stream(events, feed);
    lemma_woven_is_placed(events, None, feed, events.len());
}

/// Whether no event of `events` opens an example block.
pub open spec fn untagged(events: Seq<EventView>) -> bool {
    forall|i: int| 0 <= i < events.len() ==> !opens_example(#[trigger] events[i])
}

/// From outside a block, a stream without example blocks is passed through
/// whole: the run ends well, yields every unread event as it was, and runs no
/// command.
pub proof fn lemma_untagged_rest_passes(m: Machine, feed: Seq<Shown>)
    requires
        m.phase is Idle,
        untagged(unread(m)),
    ensures
        run(m, feed) == (Outcome {
            items: unread(m).map_values(|e: EventView| ItemView::Passed(e)),
            ran: Seq::empty(),
            end: Ending::Done,
        }),
    decreases unread(m).len(),
{
    let rest = unread(m);
    let all = rest.map_values(|e: EventView| ItemView::Passed(e));
    if m.cursor < m.upstream.len() {
        let read = Machine { cursor: m.cursor + 1, ..m };
        let event = m.upstream[m.cursor as int];
        assert(rest[0] == event);
        assert(unread(read) == rest.drop_first());
        assert forall|i: int| 0 <= i < unread(read).len() implies !opens_example(
            #[trigger] unread(read)[i],
        ) by {
            assert(unread(read)[i] == rest[i + 1]);
        }
        lemma_untagged_rest_passes(read, feed);
        assert(step(m) == Step::Yield(read, Action::Yield(ItemView::Passed(event))));
        let others = unread(read).map_values(|e: EventView| ItemView::Passed(e));
        assert(seq![ItemView::Passed(event)] + others == all);
    } else {
        assert(all == Seq::<ItemView>::empty());
    }
}

/// A document without example blocks is rewritten to itself.
pub proof fn theorem_untagged_document_unchanged(events: Seq<EventView>, feed: Seq<Shown>)
    requires
        untagged(events),
    ensures
        run(start(events), feed).end == Ending::Done,
        run(start(events), feed).ran.len() == 0,
        run(start(events), feed).items == events.map_values(|e: EventView| ItemView::Passed(e)),
        woven(events, None, feed) == events.map_values(|e: EventView| ItemView::Passed(e)),
{
    assert(events.skip(0) == events);
    lemma_untagged_rest_passes(start(events), feed);
    theorem_rewritten_stream(events, feed);
}

/// A silent command adds nothing to a transcript, whatever it wrote.
pub proof fn lemma_silent_entry_is_empty(command: CommandView, stdout: Seq<char>, stderr: Seq<char>)
    requires
        command.silent,
    ensures
        entry(command, stdout, stderr) == Seq::<char>::empty(),
{
}

/// The entries of a block do not depend on what its silent commands wrote.
pub proof fn lemma_entries_ignore_silent(list: Seq<CommandView>, a: Seq<Shown>, b: Seq<Shown>)
    requires
        forall|i: int| 0 <= i < list.len() ==> list[i].silent || a[i] == b[i],
    ensures
        entries(list, a) == entries(list, b),
        transcript(list, a) == transcript(list, b),
    decreases list.len(),
{
    if list.len() > 0 {
        lemma_entries_ignore_silent(list.drop_last(), a, b);
    }
}

/// While a silent command waits, the bytes handed in do not matter: the
/// rewriter moves on as if the command had written nothing, and cannot fail.
pub proof fn lemma_silent_output_is_ignored(m: Machine, stdout: Seq<u8>, stderr: Seq<u8>)
    requires
        m.phase matches Phase::Running { commands, done, .. } && done < commands.len()
            && commands[done as int].silent,
    ensures
        supplied(m, stdout, stderr) == Ok::<Machine, Failure>(
            recorded(m, Seq::empty(), Seq::empty()),
        ),
        m.phase matches Phase::Running { transcript, .. } && (recorded(
            m,
            Seq::empty(),
            Seq::empty(),
        ).phase matches Phase::Running { transcript: after, .. } && after == transcript),
{
    let before = m.phase->Running_transcript;
    assert(before + Seq::<char>::empty() == before);
}

/// A run is what a caller gets who pulls, acts on what the pull yields, and
/// pulls again: an item is the next of the rewritten stream, and a command is
/// answered with the next entry of the feed.
pub proof fn lemma_run_by_pulls(m: Machine, feed: Seq<Shown>)
    ensures
        ({
            let after = pull(m).machine;
            let stop = |end: Ending| Outcome { items: Seq::empty(), ran: Seq::empty(), end };
            run(m, feed) == match pull(m).result {
                Err(failure) => stop(Ending::Failed(failure)),
                Ok(Action::End) => stop(Ending::Done),
                Ok(Action::Open { .. }) => run(after, feed),
                Ok(Action::Yield(item)) => {
                    let rest = run(after, feed);
                    Outcome { items: seq![item] + rest.items, ..rest }
                },
                Ok(Action::Run { command, .. }) => if feed.len() == 0 {
                    stop(Ending::Starved)
                } else {
                    let rest = run(
                        recorded(after, feed[0].stdout, feed[0].stderr),
                        feed.drop_first(),
                    );
                    Outcome { ran: seq![command] + rest.ran, ..rest }
                },
            }
        }),
    decreases fuel(m),
{
    match step(m) {
        Step::Quiet(next) => {
            lemma_run_by_pulls(next, feed);
        },
        _ => {},
    }
}

} // verus!
