//! Writing resolved arguments into the data of a buffered frame.

use crate::classify::{call_id_of, function_call_id};
use crate::codec::{json_parsed, json_rendered, parse_text, render_text};
use crate::frame::{EventFrame, EventFrameView};
use crate::json::{Json, JsonView};
use crate::table::{ArgumentTable, Arguments};
use vstd::prelude::*;

verus! {

/// The call identifier under which a document's arguments are looked up: that
/// of its item, where the item is a function call.
pub open spec fn patch_call_id(doc: JsonView) -> Option<Seq<char>> {
    match doc.member("item"@) {
        Some(item) => function_call_id(item),
        None => None,
    }
}

/// The document with the arguments of its item set.
pub open spec fn with_arguments(doc: JsonView, arguments: Seq<char>) -> JsonView
    recommends
        doc.member("item"@) is Some,
{
    doc.with_member(
        "item"@,
        doc.member("item"@)->0.with_member("arguments"@, JsonView::Text(arguments)),
    )
}

/// The document with the arguments of its function call replaced by those
/// that the table holds for the call's identifier. There is none where the
/// document has no function-call item with a string identifier, or where the
/// table does not hold the identifier.
pub open spec fn patch_of(doc: JsonView, table: Arguments) -> Option<JsonView> {
    match patch_call_id(doc) {
        Some(call_id) => if table.contains_key(call_id) {
            Some(with_arguments(doc, table[call_id]))
        } else {
            None
        },
        None => None,
    }
}

/// The data of a frame after the patch: the text of the patched document,
/// where the data reads as a document that has a patch.
pub open spec fn patched_data(data: Seq<char>, table: Arguments) -> Option<Seq<char>> {
    match json_parsed(data) {
        Some(doc) => match patch_of(doc, table) {
            Some(patched) => Some(json_rendered(patched)),
            None => None,
        },
        None => None,
    }
}

/// The frame as it leaves the buffer: with patched data where there is a
/// patch, and as it arrived where there is none.
pub open spec fn released(frame: EventFrameView, table: Arguments) -> EventFrameView {
    match patched_data(frame.data, table) {
        Some(data) => frame.with_data(data),
        None => frame,
    }
}

/// The document with the arguments of its function call replaced by those
/// that the table holds for the call's identifier, where there are any.
pub fn patch_document(doc: &Json, table: &ArgumentTable) -> (patched: Option<Json>)
    ensures
        patched matches Some(changed) ==> patch_of(doc@, table@) == Some(changed@),
        patched is None ==> patch_of(doc@, table@) is None,
{
    let item = match doc.get("item") {
        Some(item) => item,
        None => { return None; },
    };
    let call_id = match call_id_of(item) {
        Some(call_id) => call_id,
        None => { return None; },
    };
    match table.get(call_id) {
        Some(arguments) => {
            let fixed_item = item.with_member("arguments", Json::Text(arguments.to_owned()));
            Some(doc.with_member("item", fixed_item))
        },
        None => None,
    }
}

/// The data of a frame after the patch, where there is one.
pub fn patch_data(data: &str, table: &ArgumentTable) -> (patched: Option<String>)
    ensures
        patched matches Some(text) ==> patched_data(data@, table@) == Some(text@),
        patched is None ==> patched_data(data@, table@) is None,
{
    match parse_text(data) {
        Some(doc) => match patch_document(&doc, table) {
            Some(changed) => Some(render_text(&changed)),
            None => None,
        },
        None => None,
    }
}

/// The frame as it leaves the buffer, and whether it was patched.
pub fn release(frame: &EventFrame, table: &ArgumentTable) -> (out: (EventFrame, bool))
    ensures
        out.0@ == released(frame@, table@),
        out.1 == patched_data(frame@.data, table@).is_some(),
{
    match patch_data(frame.data.as_str(), table) {
        Some(data) => (frame.with_data(data), true),
        None => (frame.duplicate(), false),
    }
}

} // verus!
