//! One frame of a text event stream.

use vstd::prelude::*;

verus! {

/// One event of the stream as it was received. `retry` is in milliseconds.
#[derive(Clone, Debug, PartialEq, Eq)]
pub struct EventFrame {
    pub id: Option<String>,
    pub event_name: Option<String>,
    pub data: String,
    pub retry: Option<u64>,
}

/// The mathematical value of an [`EventFrame`].
pub ghost struct EventFrameView {
    pub id: Option<Seq<char>>,
    pub event_name: Option<Seq<char>>,
    pub data: Seq<char>,
    pub retry: Option<u64>,
}

/// The characters of an optional string.
pub open spec fn text_of(field: Option<String>) -> Option<Seq<char>> {
    match field {
        Some(text) => Some(text@),
        None => None,
    }
}

impl View for EventFrame {
    type V = EventFrameView;

    open spec fn view(&self) -> EventFrameView {
        EventFrameView {
            id: text_of(self.id),
            event_name: text_of(self.event_name),
            data: self.data@,
            retry: self.retry,
        }
    }
}

impl EventFrameView {
    /// This frame with other data.
    pub open spec fn with_data(self, data: Seq<char>) -> EventFrameView {
        EventFrameView { data, ..self }
    }
}

/// The views of a run of frames.
pub open spec fn frames_view(frames: Seq<EventFrame>) -> Seq<EventFrameView> {
    Seq::new(frames.len(), |i: int| frames[i]@)
}

/// A copy of an optional string.
fn copy_text(field: &Option<String>) -> (copy: Option<String>)
    ensures
        text_of(copy) == text_of(*field),
{
    match field {
        Some(text) => Some(text.clone()),
        None => None,
    }
}

impl EventFrame {
    /// A frame that carries only data.
    pub fn from_data(data: &str) -> (frame: EventFrame)
        ensures
            frame@ == (EventFrameView { id: None, event_name: None, data: data@, retry: None }),
    {
        EventFrame { id: None, event_name: None, data: data.to_owned(), retry: None }
    }

    /// A copy of this frame.
    pub fn duplicate(&self) -> (copy: EventFrame)
        ensures
            copy@ == self@,
    {
        EventFrame {
            id: copy_text(&self.id),
            event_name: copy_text(&self.event_name),
            data: self.data.clone(),
            retry: self.retry,
        }
    }

    /// A copy of this frame with other data.
    pub fn with_data(&self, data: String) -> (changed: EventFrame)
        ensures
            changed@ == self@.with_data(data@),
    {
        EventFrame {
            id: copy_text(&self.id),
            event_name: copy_text(&self.event_name),
            data,
            retry: self.retry,
        }
    }
}

} // verus!
