//! From markdown text to events, and from the rewritten stream back to text.
//!
//! Both ways go through `pulldown_cmark`. The rewriter reads little of an
//! event, so an event here holds its kind and its position; the serializer
//! finds the parser's own event again by that position.

use crate::error::Failure;
use crate::event::{
    event_views, item_views, kind_views, Event, EventView, Item, ItemView, Kind, KindView,
};
use pulldown_cmark::{CodeBlockKind, Parser, Tag, TagEnd};
use vstd::prelude::*;

verus! {

/// What the rewriter reads of each event that `pulldown_cmark::Parser::new`,
/// which switches every extension off, yields for `text`.
pub uninterp spec fn markdown_kinds(text: Seq<char>) -> Seq<KindView>;

/// The text that `pulldown_cmark_to_cmark::cmark` writes for the rewritten
/// stream `items` of the document `source`, or `None` where it refuses the
/// stream.
pub uninterp spec fn markdown_text(source: Seq<char>, items: Seq<ItemView>) -> Option<Seq<char>>;

/// The error of `pulldown_cmark_to_cmark::cmark`, carried through unread.
#[verifier::external_type_specification]
#[verifier::external_body]
pub struct ExSerializeError(pulldown_cmark_to_cmark::Error);

/// Runs `pulldown_cmark::Parser::new` over `text`. Of each event that it
/// yields only this is kept: that it starts a fenced code block, with the
/// block's info string; that it is text, with the text; that it ends a code
/// block; or that it is none of these. The contract claims only that the
/// result is a function of the text: it is the one that `markdown_kinds`
/// names.
#[verifier::external_body]
fn parse_markdown(text: &str) -> (kinds: Vec<Kind>)
    ensures
        kind_views(kinds@) == markdown_kinds(text@),
{
    Parser::new(text).map(|event| match event {
        pulldown_cmark::Event::Start(Tag::CodeBlock(CodeBlockKind::Fenced(info))) =>
            Kind::BlockStart(info.into_string()),
        pulldown_cmark::Event::Text(text) => Kind::Text(text.into_string()),
        pulldown_cmark::Event::End(TagEnd::CodeBlock) => Kind::BlockEnd,
        _ => Kind::Other,
    }).collect()
}

/// Hands `pulldown_cmark_to_cmark::cmark` the stream `items`, with the
/// parser's options: for an event that was passed through, the event that the
/// parser yields at that position of `source`; for a transcript, an event of
/// raw HTML. The contract claims only that the result is a function of the
/// source and the items: it is the one that `markdown_text` names. An event's
/// position has to exist in the source.
#[verifier::external_body]
fn serialize(source: &str, items: &Vec<Item>) -> (text: Result<
    String,
    pulldown_cmark_to_cmark::Error,
>)
    requires
        placed(item_views(items@), markdown_kinds(source@).len()),
    ensures
        match text {
            Ok(t) => markdown_text(source@, item_views(items@)) == Some(t@),
            Err(_) => markdown_text(source@, item_views(items@)) is None,
        },
{
    let parsed: Vec<pulldown_cmark::Event<'_>> = Parser::new(source).collect();
    let mut text = String::with_capacity(source.len());
    let outside = items.iter().map(|item| match item {
        Item::Passed(event) => parsed[event.at].clone(),
        Item::Transcript(markup) => pulldown_cmark::Event::Html(markup.as_str().into()),
    });
    pulldown_cmark_to_cmark::cmark(outside, &mut text, pulldown_cmark::Options::empty()).map(
        |_| text,
    )
}

/// Whether every event passed through in `items` has a position below
/// `bound`.
pub open spec fn placed(items: Seq<ItemView>, bound: nat) -> bool {
    forall|i: int|
        0 <= i < items.len() ==> (#[trigger] items[i] matches ItemView::Passed(event)
            ==> event.at < bound)
}

/// The events of a stream with the kinds `kinds`: each kind at its position.
pub open spec fn numbered(kinds: Seq<KindView>) -> Seq<EventView> {
    Seq::new(kinds.len(), |at: int| EventView { at: at as usize, kind: kinds[at] })
}

/// The events of the markdown text `text`.
pub open spec fn markdown_events(text: Seq<char>) -> Seq<EventView> {
    numbered(markdown_kinds(text))
}

/// The events of the markdown text `text`, each with its position in the
/// stream.
pub fn parse(text: &str) -> (events: Vec<Event>)
    ensures
        event_views(events@) == markdown_events(text@),
{
    let kinds = parse_markdown(text);
    let mut events: Vec<Event> = Vec::new();
    let mut at: usize = 0;
    while at < kinds.len()
        invariant
            at <= kinds.len(),
            events.len() == at,
            event_views(events@) == numbered(kind_views(kinds@).take(at as int)),
        decreases kinds.len() - at,
    {
        let event = Event { at, kind: kinds[at].clone() };
        proof {
            let before = kind_views(kinds@).take(at as int);
            let after = kind_views(kinds@).take(at + 1);
            assert(after[at as int] == kinds@[at as int]@);
            assert(event_views(events@.push(event)) == event_views(events@).push(event@));
            assert(numbered(before).push(event@) == numbered(after));
        }
        events.push(event);
        at = at + 1;
    }
    assert(kind_views(kinds@).take(at as int) == kind_views(kinds@));
    events
}

/// Writes the rewritten stream `items` of the document `source` as markdown.
///
/// Fails with `UnknownEvent` where an event that was passed through has a
/// position that the document does not have, and with `Unserializable`
/// where the serializer refuses the stream.
pub fn render(source: &str, items: &Vec<Item>) -> (text: Result<String, Failure>)
    ensures
        match text {
            Ok(t) => placed(item_views(items@), markdown_events(source@).len()) && markdown_text(
                source@,
                item_views(items@),
            ) == Some(t@),
            Err(failure) => if placed(item_views(items@), markdown_events(source@).len()) {
                failure == Failure::Unserializable && markdown_text(source@, item_views(items@))
                    is None
            } else {
                failure == Failure::UnknownEvent
            },
        },
{
    let bound: usize = parse_markdown(source).len();
    let mut at: usize = 0;
    while at < items.len()
        invariant
            at <= items.len(),
            bound == markdown_kinds(source@).len(),
            placed(item_views(items@).take(at as int), bound as nat),
        decreases items.len() - at,
    {
        let known = match &items[at] {
            Item::Passed(event) => event.at < bound,
            Item::Transcript(_) => true,
        };
        if !known {
            assert(!placed(item_views(items@), bound as nat)) by {
                assert(item_views(items@)[at as int] == items@[at as int]@);
            }
            return Err(Failure::UnknownEvent);
        }
        proof {
            let seen = item_views(items@).take(at + 1);
            assert forall|i: int| 0 <= i < seen.len() implies (#[trigger] seen[i]
                matches ItemView::Passed(event) ==> event.at < bound) by {
                if i < at {
                    assert(seen[i] == item_views(items@).take(at as int)[i]);
                }
            }
        }
        at = at + 1;
    }
    assert(item_views(items@).take(at as int) == item_views(items@));
    match serialize(source, items) {
        Ok(text) => Ok(text),
        Err(_) => Err(Failure::Unserializable),
    }
}

} // verus!
