//! What a frame means to the reconciler.

use crate::codec::{json_parsed, parse_text};
use crate::frame::{EventFrame, EventFrameView};
use crate::json::{items_view, Json, JsonView};
use vstd::prelude::*;

verus! {

/// The data of the frame that ends a stream.
pub const DONE_SENTINEL: &'static str = "[DONE]";

/// A function call of a completed response, with the arguments it was made with.
#[derive(Clone, Debug, PartialEq, Eq)]
pub struct ResolvedCall {
    pub call_id: String,
    pub arguments: String,
}

/// The mathematical value of a [`ResolvedCall`].
pub ghost struct ResolvedCallView {
    pub call_id: Seq<char>,
    pub arguments: Seq<char>,
}

impl View for ResolvedCall {
    type V = ResolvedCallView;

    open spec fn view(&self) -> ResolvedCallView {
        ResolvedCallView { call_id: self.call_id@, arguments: self.arguments@ }
    }
}

/// The views of a run of resolved calls.
pub open spec fn calls_view(calls: Seq<ResolvedCall>) -> Seq<ResolvedCallView> {
    Seq::new(calls.len(), |i: int| calls[i]@)
}

/// The category of a frame.
#[derive(Clone, Debug, PartialEq, Eq)]
pub enum Classification {
    /// A function call that arrived with empty arguments; it carries the call
    /// identifier.
    PendingFixCandidate(String),
    /// The end of a response; it carries the function calls of the response
    /// that have arguments, in the order of the output list.
    Completion(Vec<ResolvedCall>),
    /// The end of the stream.
    Terminator,
    /// Anything else.
    Opaque,
}

/// The mathematical value of a [`Classification`].
pub ghost enum ClassificationView {
    PendingFixCandidate(Seq<char>),
    Completion(Seq<ResolvedCallView>),
    Terminator,
    Opaque,
}

impl View for Classification {
    type V = ClassificationView;

    open spec fn view(&self) -> ClassificationView {
        match self {
            Classification::PendingFixCandidate(call_id) => ClassificationView::PendingFixCandidate(
                call_id@,
            ),
            Classification::Completion(calls) => ClassificationView::Completion(
                calls_view(calls@),
            ),
            Classification::Terminator => ClassificationView::Terminator,
            Classification::Opaque => ClassificationView::Opaque,
        }
    }
}

/// The event types under which a function call may arrive with empty arguments.
pub open spec fn is_call_event(kind: Seq<char>) -> bool {
    ||| kind == "response.output_item.added"@
    ||| kind == "response.function_call_arguments.done"@
    ||| kind == "response.output_item.done"@
}

/// The call identifier of an item that is a function call.
pub open spec fn function_call_id(item: JsonView) -> Option<Seq<char>> {
    if item.text_member("type"@) == Some("function_call"@) {
        item.text_member("call_id"@)
    } else {
        None
    }
}

/// The call identifier of a document that carries a function call with empty
/// arguments under one of the call event types.
pub open spec fn candidate_call_id(doc: JsonView) -> Option<Seq<char>> {
    match (doc.text_member("type"@), doc.member("item"@)) {
        (Some(kind), Some(item)) => if is_call_event(kind) && item.text_member("arguments"@)
            == Some(Seq::<char>::empty()) {
            function_call_id(item)
        } else {
            None
        },
        _ => None,
    }
}

/// What one entry of an output list resolves: a function call with a string
/// identifier and arguments that are not empty.
pub open spec fn resolved_call(entry: JsonView) -> Option<ResolvedCallView> {
    match (function_call_id(entry), entry.text_member("arguments"@)) {
        (Some(call_id), Some(arguments)) => if arguments.len() > 0 {
            Some(ResolvedCallView { call_id, arguments })
        } else {
            None
        },
        _ => None,
    }
}

/// What an output list resolves, entry by entry and in its order.
pub open spec fn resolved_calls(output: Seq<JsonView>) -> Seq<ResolvedCallView>
    decreases output.len(),
{
    if output.len() == 0 {
        Seq::empty()
    } else {
        let earlier = resolved_calls(output.drop_last());
        match resolved_call(output.last()) {
            Some(call) => earlier.push(call),
            None => earlier,
        }
    }
}

/// The output list of a document that completes a response.
pub open spec fn completion_output(doc: JsonView) -> Option<Seq<JsonView>> {
    if doc.text_member("type"@) == Some("response.completed"@) {
        match doc.member("response"@) {
            Some(response) => match response.member("output"@) {
                Some(output) => output.items(),
                None => None,
            },
            None => None,
        }
    } else {
        None
    }
}

/// The category of a frame with the given data, where `parsed` is the document
/// that the data reads as, if it reads as one.
pub open spec fn classify_document(data: Seq<char>, parsed: Option<JsonView>)
    -> ClassificationView {
    if data == DONE_SENTINEL@ {
        ClassificationView::Terminator
    } else {
        match parsed {
            None => ClassificationView::Opaque,
            Some(doc) => match candidate_call_id(doc) {
                Some(call_id) => ClassificationView::PendingFixCandidate(call_id),
                None => match completion_output(doc) {
                    Some(output) => ClassificationView::Completion(resolved_calls(output)),
                    None => ClassificationView::Opaque,
                },
            },
        }
    }
}

/// The category of a frame.
pub open spec fn classify_spec(frame: EventFrameView) -> ClassificationView {
    classify_document(frame.data, json_parsed(frame.data))
}

/// The view of an optional document.
pub open spec fn document_view(parsed: Option<&Json>) -> Option<JsonView> {
    match parsed {
        Some(doc) => Some(doc@),
        None => None,
    }
}

/// Whether a function call may arrive with empty arguments under this event
/// type.
fn is_call_event_kind(kind: &str) -> (yes: bool)
    ensures
        yes == is_call_event(kind@),
{
    kind.eq("response.output_item.added") || kind.eq("response.function_call_arguments.done")
        || kind.eq("response.output_item.done")
}

/// The call identifier of an item that is a function call.
pub fn call_id_of(item: &Json) -> (found: Option<&str>)
    ensures
        found matches Some(id) ==> function_call_id(item@) == Some(id@),
        found is None ==> function_call_id(item@) is None,
{
    match item.get_text("type") {
        Some(kind) => if kind.eq("function_call") {
            item.get_text("call_id")
        } else {
            None
        },
        None => None,
    }
}

/// The call identifier of a document that carries a function call with empty
/// arguments under one of the call event types.
fn candidate_of(doc: &Json) -> (found: Option<&str>)
    ensures
        found matches Some(id) ==> candidate_call_id(doc@) == Some(id@),
        found is None ==> candidate_call_id(doc@) is None,
{
    let kind = match doc.get_text("type") {
        Some(kind) => kind,
        None => { return None; },
    };
    let item = match doc.get("item") {
        Some(item) => item,
        None => { return None; },
    };
    if !is_call_event_kind(kind) {
        return None;
    }
    match item.get_text("arguments") {
        Some(arguments) => if arguments.is_empty() {
            assert(arguments@ =~= Seq::<char>::empty());
            call_id_of(item)
        } else {
            None
        },
        None => None,
    }
}

/// What one entry of an output list resolves.
fn resolved_call_of(entry: &Json) -> (found: Option<ResolvedCall>)
    ensures
        found matches Some(call) ==> resolved_call(entry@) == Some(call@),
        found is None ==> resolved_call(entry@) is None,
{
    let call_id = match call_id_of(entry) {
        Some(call_id) => call_id,
        None => { return None; },
    };
    match entry.get_text("arguments") {
        Some(arguments) => if !arguments.is_empty() {
            Some(ResolvedCall { call_id: call_id.to_owned(), arguments: arguments.to_owned() })
        } else {
            None
        },
        None => None,
    }
}

/// What an output list resolves, entry by entry and in its order.
fn resolved_calls_of(output: &Vec<Json>) -> (calls: Vec<ResolvedCall>)
    ensures
        calls_view(calls@) == resolved_calls(items_view(output)),
{
    let ghost shown = items_view(output);
    let mut calls: Vec<ResolvedCall> = Vec::new();
    let mut i: usize = 0;
    while i < output.len()
        invariant
            i <= output.len(),
            shown == items_view(output),
            calls_view(calls@) == resolved_calls(shown.take(i as int)),
        decreases output.len() - i,
    {
        assert(shown.take(i + 1).drop_last() == shown.take(i as int));
        match resolved_call_of(&output[i]) {
            Some(call) => {
                calls.push(call);
            },
            None => {},
        }
        i += 1;
    }
    assert(shown.take(i as int) == shown);
    calls
}

/// The output list of a document that completes a response.
fn completion_output_of(doc: &Json) -> (found: Option<&Vec<Json>>)
    ensures
        found matches Some(output) ==> completion_output(doc@) == Some(items_view(output)),
        found is None ==> completion_output(doc@) is None,
{
    match doc.get_text("type") {
        Some(kind) => if !kind.eq("response.completed") {
            return None;
        },
        None => { return None; },
    }
    match doc.get("response") {
        Some(response) => match response.get("output") {
            Some(output) => output.as_items(),
            None => None,
        },
        None => None,
    }
}

/// The category of a frame with the given data, where `parsed` is the document
/// that the data reads as, if it reads as one.
pub fn classify_parsed(data: &str, parsed: Option<&Json>) -> (class: Classification)
    ensures
        class@ == classify_document(data@, document_view(parsed)),
{
    if data.eq(DONE_SENTINEL) {
        return Classification::Terminator;
    }
    let doc = match parsed {
        Some(doc) => doc,
        None => { return Classification::Opaque; },
    };
    match candidate_of(doc) {
        Some(call_id) => Classification::PendingFixCandidate(call_id.to_owned()),
        None => match completion_output_of(doc) {
            Some(output) => Classification::Completion(resolved_calls_of(output)),
            None => Classification::Opaque,
        },
    }
}

/// The category of a frame: its data is read as JSON, and a frame whose data
/// does not read as JSON is opaque unless it is the terminator.
pub fn classify(frame: &EventFrame) -> (class: Classification)
    ensures
        class@ == classify_spec(frame@),
{
    if frame.data.as_str().eq(DONE_SENTINEL) {
        return Classification::Terminator;
    }
    match parse_text(frame.data.as_str()) {
        Some(doc) => classify_parsed(frame.data.as_str(), Some(&doc)),
        None => Classification::Opaque,
    }
}

} // verus!
