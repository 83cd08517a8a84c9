//! The events of a markdown document, as far as the rewriter reads them, and
//! the items of the rewritten stream.

use crate::tag::is_tagged;
use vstd::prelude::*;

verus! {

/// What the rewriter reads of an event.
#[derive(Debug, PartialEq, Eq)]
pub enum Kind {
    /// The start of a fenced code block, with its info string.
    BlockStart(String),
    /// A piece of text.
    Text(String),
    /// The end of a code block.
    BlockEnd,
    /// Any other event.
    Other,
}

/// One event of a document's stream.
#[derive(Debug, PartialEq, Eq)]
pub struct Event {
    /// The event's position in the document's stream.
    pub at: usize,
    pub kind: Kind,
}

/// One item of the rewritten stream.
#[derive(Debug, PartialEq, Eq)]
pub enum Item {
    /// An event of the document, as it was.
    Passed(Event),
    /// The transcript that stands for an example block: raw markup.
    Transcript(String),
}

/// A kind as contracts see it.
pub enum KindView {
    BlockStart(Seq<char>),
    Text(Seq<char>),
    BlockEnd,
    Other,
}

/// An event as contracts see it.
pub struct EventView {
    pub at: usize,
    pub kind: KindView,
}

/// An item as contracts see it.
pub enum ItemView {
    Passed(EventView),
    Transcript(Seq<char>),
}

impl View for Kind {
    type V = KindView;

    open spec fn view(&self) -> KindView {
        match self {
            Kind::BlockStart(info) => KindView::BlockStart(info@),
            Kind::Text(text) => KindView::Text(text@),
            Kind::BlockEnd => KindView::BlockEnd,
            Kind::Other => KindView::Other,
        }
    }
}

impl View for Event {
    type V = EventView;

    open spec fn view(&self) -> EventView {
        EventView { at: self.at, kind: self.kind@ }
    }
}

impl View for Item {
    type V = ItemView;

    open spec fn view(&self) -> ItemView {
        match self {
            Item::Passed(event) => ItemView::Passed(event@),
            Item::Transcript(markup) => ItemView::Transcript(markup@),
        }
    }
}

impl Clone for Kind {
    fn clone(&self) -> (copy: Self)
        ensures
            copy == *self,
    {
        match self {
            Kind::BlockStart(info) => Kind::BlockStart(info.clone()),
            Kind::Text(text) => Kind::Text(text.clone()),
            Kind::BlockEnd => Kind::BlockEnd,
            Kind::Other => Kind::Other,
        }
    }
}

impl Clone for Event {
    fn clone(&self) -> (copy: Self)
        ensures
            copy == *self,
    {
        Event { at: self.at, kind: self.kind.clone() }
    }
}

/// The views of the kinds `list`, in order.
pub open spec fn kind_views(list: Seq<Kind>) -> Seq<KindView> {
    list.map_values(|k: Kind| k@)
}

/// The views of the events `list`, in order.
pub open spec fn event_views(list: Seq<Event>) -> Seq<EventView> {
    list.map_values(|e: Event| e@)
}

/// The views of the items `list`, in order.
pub open spec fn item_views(list: Seq<Item>) -> Seq<ItemView> {
    list.map_values(|i: Item| i@)
}

/// Whether `event` opens an example block.
pub open spec fn opens_example(event: EventView) -> bool {
    event.kind matches KindView::BlockStart(info) && is_tagged(info)
}

} // verus!
