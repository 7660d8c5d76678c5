//! The event-stream protocol: one increment of agent output at a time.

use vstd::prelude::*;
use crate::content::{Content, ContentView, PartView};
use crate::errors::ModelError;

verus! {

/// One increment of agent output: who produced it, an optional content
/// payload, a turn-completion flag, and an optional terminal error.
/// Events are produced in strict emission order within a run.
pub struct Event {
    pub author: String,
    pub content: Option<Content>,
    pub turn_complete: bool,
    pub error: Option<ModelError>,
}

/// Mathematical model of an `Event`.
#[verifier::ext_equal]
pub struct EventView {
    pub author: Seq<char>,
    pub content: Option<ContentView>,
    pub turn_complete: bool,
    pub error: Option<ModelError>,
}

impl View for Event {
    type V = EventView;

    open spec fn view(&self) -> EventView {
        EventView {
            author: self.author@,
            content: match self.content {
                Option::Some(c) => Option::Some(c@),
                Option::None => Option::None,
            },
            turn_complete: self.turn_complete,
            error: self.error,
        }
    }
}

impl EventView {
    /// An ordinary streamed increment carrying content.
    pub open spec fn is_content(self) -> bool {
        self.content is Some && self.error is None
    }

    /// A terminal error signal; the stream is closed after it.
    pub open spec fn is_error(self) -> bool {
        self.error is Some
    }

    /// No further events may follow a terminal event.
    pub open spec fn is_terminal(self) -> bool {
        self.is_error() || self.turn_complete
    }
}

/// The event wrapped around one incremental model chunk.
pub open spec fn chunk_event(author: Seq<char>, text: Seq<char>) -> EventView {
    EventView {
        author,
        content: Option::Some(
            ContentView { role: "model"@, parts: seq![PartView::Text { text }] },
        ),
        turn_complete: false,
        error: Option::None,
    }
}

/// The terminal event signalling a model failure.
pub open spec fn error_event(author: Seq<char>, err: ModelError) -> EventView {
    EventView {
        author,
        content: Option::None,
        turn_complete: false,
        error: Option::Some(err),
    }
}

/// The terminal event signalling normal completion of a turn.
pub open spec fn completion_event(author: Seq<char>) -> EventView {
    EventView { author, content: Option::None, turn_complete: true, error: Option::None }
}

/// How many events of a sequence carry content.
pub open spec fn content_event_count(events: Seq<EventView>) -> nat
    decreases events.len(),
{
    if events.len() == 0 {
        0
    } else {
        content_event_count(events.drop_last()) + if events.last().is_content() {
            1nat
        } else {
            0nat
        }
    }
}

/// How many events of a sequence are error signals.
pub open spec fn error_event_count(events: Seq<EventView>) -> nat
    decreases events.len(),
{
    if events.len() == 0 {
        0
    } else {
        error_event_count(events.drop_last()) + if events.last().is_error() {
            1nat
        } else {
            0nat
        }
    }
}

/// An error, if any, is the last element of the sequence: nothing follows it.
pub open spec fn errors_are_terminal(events: Seq<EventView>) -> bool {
    forall|i: int| 0 <= i < events.len() && (#[trigger] events[i]).is_error() ==> i == events.len() - 1
}

/// The events a streaming run has emitted so far: one content event per
/// model chunk, in chunk order.
pub open spec fn streamed_events(author: Seq<char>, chunks: Seq<Seq<char>>) -> Seq<EventView> {
    Seq::new(chunks.len(), |i: int| chunk_event(author, chunks[i]))
}

} // verus!
