use responses_fix::classify::{Classification, ResolvedCall};
use responses_fix::frame::EventFrame;
use responses_fix::reconciler::{Emission, Incoming, Reconciler};

fn candidate_data(call_id: &str) -> String {
    format!(
        "{{\"type\":\"response.output_item.added\",\"item\":{{\"type\":\"function_call\",\"call_id\":\"{}\",\"arguments\":\"\"}}}}",
        call_id
    )
}

fn patched_data(call_id: &str, escaped_arguments: &str) -> String {
    format!(
        "{{\"item\":{{\"arguments\":\"{}\",\"call_id\":\"{}\",\"type\":\"function_call\"}},\"type\":\"response.output_item.added\"}}",
        escaped_arguments, call_id
    )
}

fn completion_data(calls: &[(&str, &str)]) -> String {
    let entries: Vec<String> = calls
        .iter()
        .map(|(call_id, escaped_arguments)| {
            format!(
                "{{\"type\":\"function_call\",\"call_id\":\"{}\",\"arguments\":\"{}\"}}",
                call_id, escaped_arguments
            )
        })
        .collect();
    format!(
        "{{\"type\":\"response.completed\",\"response\":{{\"output\":[{}]}}}}",
        entries.join(",")
    )
}

fn frame(id: &str, name: &str, data: &str) -> EventFrame {
    EventFrame {
        id: Some(id.to_string()),
        event_name: Some(name.to_string()),
        data: data.to_string(),
        retry: None,
    }
}

fn candidate(id: &str, call_id: &str) -> EventFrame {
    frame(id, "response.output_item.added", &candidate_data(call_id))
}

fn completion(id: &str, calls: &[(&str, &str)]) -> EventFrame {
    frame(id, "response.completed", &completion_data(calls))
}

fn opaque(id: &str, text: &str) -> EventFrame {
    frame(id, "response.output_text.delta", &format!("{{\"type\":\"response.output_text.delta\",\"delta\":\"{}\"}}", text))
}

fn done() -> EventFrame {
    EventFrame::from_data("[DONE]")
}

fn feed(reconciler: &mut Reconciler, frames: &[EventFrame]) -> Vec<EventFrame> {
    let mut sent = Vec::new();
    for frame in frames {
        sent.extend(reconciler.step(frame.clone()).frames);
    }
    sent
}

#[test]
fn a_new_reconciler_is_empty() {
    let reconciler = Reconciler::new();
    assert_eq!(reconciler.pending_len(), 0);
    assert!(!reconciler.ended_by_terminator());
}

#[test]
fn an_opaque_frame_is_sent_on_at_once() {
    let mut reconciler = Reconciler::new();
    let input = opaque("1", "hello");
    let out = reconciler.step(input.clone());
    assert_eq!(out.frames, vec![input]);
    assert_eq!(out.unpatched, 0);
    assert_eq!(reconciler.pending_len(), 0);
}

#[test]
fn a_candidate_is_held_back() {
    let mut reconciler = Reconciler::new();
    let out = reconciler.step(candidate("1", "c1"));
    assert_eq!(out.frames, vec![]);
    assert_eq!(out.unpatched, 0);
    assert_eq!(reconciler.pending_len(), 1);
}

#[test]
fn patch_correctness() {
    let mut reconciler = Reconciler::new();
    let held = candidate("1", "c1");
    let end = completion("2", &[("c1", "{\\\"x\\\":1}")]);
    assert_eq!(reconciler.step(held).frames, vec![]);
    let out = reconciler.step(end.clone());
    let patched = frame(
        "1",
        "response.output_item.added",
        &patched_data("c1", "{\\\"x\\\":1}"),
    );
    assert_eq!(out.frames, vec![patched, end]);
    assert_eq!(out.unpatched, 0);
    assert_eq!(reconciler.pending_len(), 0);
}

#[test]
fn patch_sets_the_arguments_member() {
    let mut reconciler = Reconciler::new();
    reconciler.step(candidate("1", "c1"));
    let out = reconciler.step(completion("2", &[("c1", "{\\\"x\\\":1}")]));
    let value: serde_json::Value = serde_json::from_str(&out.frames[0].data).unwrap();
    let item = value.get("item").unwrap();
    assert_eq!(item.get("arguments").unwrap().as_str(), Some("{\"x\":1}"));
    assert_eq!(item.get("call_id").unwrap().as_str(), Some("c1"));
    assert_eq!(item.get("type").unwrap().as_str(), Some("function_call"));
    assert_eq!(value.get("type").unwrap().as_str(), Some("response.output_item.added"));
}

#[test]
fn patch_keeps_id_event_name_and_retry() {
    let mut reconciler = Reconciler::new();
    let held = EventFrame {
        id: Some("41".to_string()),
        event_name: None,
        data: candidate_data("c1"),
        retry: Some(3000),
    };
    reconciler.step(held);
    let out = reconciler.step(completion("42", &[("c1", "{}")]));
    assert_eq!(out.frames[0].id, Some("41".to_string()));
    assert_eq!(out.frames[0].event_name, None);
    assert_eq!(out.frames[0].retry, Some(3000));
    assert_eq!(out.frames[0].data, patched_data("c1", "{}"));
}

#[test]
fn patch_agrees_with_the_value_api() {
    let data = "{\"zeta\":[1,2.5,-3,1e2,true,null],\"type\":\"response.output_item.done\",\"output_index\":0,\"item\":{\"status\":\"completed\",\"type\":\"function_call\",\"name\":\"lookup \\\"it\\\"\",\"call_id\":\"c1\",\"arguments\":\"\",\"id\":\"fc_1\"},\"sequence_number\":18446744073709551615}";
    let arguments = "{\"city\":\"Z\u{fc}rich\",\"n\":[1,2]}";
    let mut expected: serde_json::Value = serde_json::from_str(data).unwrap();
    expected["item"]["arguments"] = serde_json::Value::String(arguments.to_string());

    let mut reconciler = Reconciler::new();
    reconciler.apply(
        EventFrame::from_data(data),
        Classification::PendingFixCandidate("c1".to_string()),
    );
    let out = reconciler.apply(
        EventFrame::from_data("end"),
        Classification::Completion(vec![ResolvedCall {
            call_id: "c1".to_string(),
            arguments: arguments.to_string(),
        }]),
    );
    assert_eq!(out.frames.len(), 2);
    assert_eq!(out.frames[0].data, expected.to_string());
    assert_ne!(out.frames[0].data, data);
    assert_eq!(out.frames[1], EventFrame::from_data("end"));
}

#[test]
fn unresolved_fallback() {
    let mut reconciler = Reconciler::new();
    let held = candidate("1", "c2");
    let end = completion("2", &[("c1", "{\\\"x\\\":1}")]);
    reconciler.step(held.clone());
    let out = reconciler.step(end.clone());
    assert_eq!(out.frames, vec![held, end]);
    assert_eq!(out.unpatched, 1);
    assert_eq!(reconciler.pending_len(), 0);
    let last = reconciler.step(done());
    assert_eq!(last.frames, vec![done()]);
}

#[test]
fn unresolved_fallback_at_the_terminator() {
    let mut reconciler = Reconciler::new();
    let held = candidate("1", "c2");
    let sent = feed(&mut reconciler, &[opaque("0", "a"), held.clone(), opaque("2", "b"), done()]);
    assert_eq!(sent, vec![opaque("0", "a"), opaque("2", "b"), held, done()]);
}

#[test]
fn terminator_safety_net() {
    let mut reconciler = Reconciler::new();
    let first = candidate("1", "c1");
    let second = candidate("2", "c2");
    reconciler.step(first.clone());
    reconciler.step(second.clone());
    assert_eq!(reconciler.pending_len(), 2);
    let out = reconciler.step(done());
    assert_eq!(out.frames, vec![first, second, done()]);
    assert_eq!(out.unpatched, 2);
    assert_eq!(reconciler.pending_len(), 0);
    assert!(reconciler.ended_by_terminator());
}

#[test]
fn terminator_does_not_patch_what_the_table_resolves() {
    let mut reconciler = Reconciler::new();
    reconciler.step(completion("0", &[("c1", "{}")]));
    let held = candidate("1", "c1");
    reconciler.step(held.clone());
    let out = reconciler.step(done());
    assert_eq!(out.frames, vec![held, done()]);
    assert_eq!(out.unpatched, 1);
}

#[test]
fn terminator_with_an_empty_buffer() {
    let mut reconciler = Reconciler::new();
    let out = reconciler.step(done());
    assert_eq!(out.frames, vec![done()]);
    assert_eq!(out.unpatched, 0);
    assert!(reconciler.ended_by_terminator());
}

#[test]
fn multiple_candidates_single_completion() {
    let mut reconciler = Reconciler::new();
    let first = candidate("1", "c1");
    let second = candidate("2", "c2");
    let end = completion("3", &[("c1", "{\\\"x\\\":1}")]);
    assert_eq!(reconciler.step(first).frames, vec![]);
    assert_eq!(reconciler.step(second.clone()).frames, vec![]);
    let out = reconciler.step(end.clone());
    let patched = frame(
        "1",
        "response.output_item.added",
        &patched_data("c1", "{\\\"x\\\":1}"),
    );
    assert_eq!(out.frames, vec![patched, second, end]);
    assert_eq!(out.unpatched, 1);
}

#[test]
fn one_call_announced_by_three_events() {
    let mut reconciler = Reconciler::new();
    let data = |kind: &str| {
        format!(
            "{{\"type\":\"{}\",\"item\":{{\"type\":\"function_call\",\"call_id\":\"c1\",\"arguments\":\"\"}}}}",
            kind
        )
    };
    let fixed = |kind: &str| {
        format!(
            "{{\"item\":{{\"arguments\":\"[1]\",\"call_id\":\"c1\",\"type\":\"function_call\"}},\"type\":\"{}\"}}",
            kind
        )
    };
    let kinds = [
        "response.output_item.added",
        "response.function_call_arguments.done",
        "response.output_item.done",
    ];
    for kind in kinds {
        assert_eq!(reconciler.step(EventFrame::from_data(&data(kind))).frames, vec![]);
    }
    let end = completion("9", &[("c1", "[1]")]);
    let out = reconciler.step(end.clone());
    assert_eq!(
        out.frames,
        vec![
            EventFrame::from_data(&fixed(kinds[0])),
            EventFrame::from_data(&fixed(kinds[1])),
            EventFrame::from_data(&fixed(kinds[2])),
            end,
        ],
    );
}

#[test]
fn frame_count_conservation() {
    let mut reconciler = Reconciler::new();
    let input = vec![
        opaque("0", "a"),
        candidate("1", "c1"),
        opaque("2", "b"),
        candidate("3", "c2"),
        completion("4", &[("c1", "{}")]),
        opaque("5", "c"),
        candidate("6", "c3"),
        done(),
    ];
    let mut sent = 0;
    for (seen, frame) in input.iter().enumerate() {
        sent += reconciler.step(frame.clone()).frames.len();
        assert_eq!(sent + reconciler.pending_len(), seen + 1);
    }
    assert_eq!(sent, input.len());
    assert_eq!(reconciler.pending_len(), 0);
}

#[test]
fn order_preservation() {
    let mut reconciler = Reconciler::new();
    let input = vec![
        opaque("0", "a"),
        candidate("1", "c1"),
        opaque("2", "b"),
        candidate("3", "c2"),
        opaque("4", "c"),
        completion("5", &[("c2", "{}")]),
        opaque("6", "d"),
        done(),
    ];
    let sent = feed(&mut reconciler, &input);
    let expected = vec![
        opaque("0", "a"),
        opaque("2", "b"),
        opaque("4", "c"),
        candidate("1", "c1"),
        frame("3", "response.output_item.added", &patched_data("c2", "{}")),
        completion("5", &[("c2", "{}")]),
        opaque("6", "d"),
        done(),
    ];
    assert_eq!(sent, expected);
}

#[test]
fn idempotent_passthrough() {
    let mut reconciler = Reconciler::new();
    let input = vec![
        opaque("0", "a"),
        EventFrame::from_data("plain text"),
        EventFrame { id: None, event_name: Some("ping".to_string()), data: String::new(), retry: Some(5) },
        frame("3", "x", "{\"type\":\"response.completed\"}"),
        frame("4", "x", "{\"type\":\"response.output_item.done\",\"item\":{\"type\":\"function_call\",\"call_id\":\"c1\",\"arguments\":\"{}\"}}"),
        done(),
    ];
    let sent = feed(&mut reconciler, &input);
    assert_eq!(sent, input);
    assert_eq!(reconciler.pending_len(), 0);
}

#[test]
fn run_is_the_fold_of_step() {
    let input = vec![
        opaque("0", "a"),
        candidate("1", "c1"),
        candidate("2", "c2"),
        completion("3", &[("c1", "{}")]),
        candidate("4", "c1"),
        done(),
    ];
    let mut stepwise = Reconciler::new();
    let expected = feed(&mut stepwise, &input);
    let mut whole = Reconciler::new();
    let Emission { frames, unpatched } = whole.run(&input);
    assert_eq!(frames, expected);
    assert_eq!(unpatched, 2);
    assert_eq!(whole.pending_len(), stepwise.pending_len());
    assert_eq!(whole.ended_by_terminator(), stepwise.ended_by_terminator());
}

#[test]
fn run_of_nothing_sends_nothing() {
    let mut reconciler = Reconciler::new();
    reconciler.step(candidate("1", "c1"));
    let out = reconciler.run(&Vec::new());
    assert_eq!(out.frames, vec![]);
    assert_eq!(out.unpatched, 0);
    assert_eq!(reconciler.pending_len(), 1);
}

#[test]
fn close_flushes_the_buffer_as_it_came() {
    let mut reconciler = Reconciler::new();
    let first = candidate("1", "c1");
    let second = candidate("2", "c2");
    let sent = feed(&mut reconciler, &[opaque("0", "a"), first.clone(), second.clone()]);
    assert_eq!(sent, vec![opaque("0", "a")]);
    let out = reconciler.close();
    assert_eq!(out.frames, vec![first, second]);
    assert_eq!(out.unpatched, 2);
    assert_eq!(reconciler.pending_len(), 0);
    assert!(!reconciler.ended_by_terminator());
    assert_eq!(reconciler.close().frames, vec![]);
}

#[test]
fn a_later_completion_overwrites_the_arguments() {
    let mut reconciler = Reconciler::new();
    reconciler.step(completion("0", &[("c1", "first")]));
    reconciler.step(completion("1", &[("c1", "second"), ("c1", "third")]));
    reconciler.step(candidate("2", "c1"));
    let out = reconciler.step(completion("3", &[]));
    assert_eq!(out.frames[0].data, patched_data("c1", "third"));
    assert_eq!(out.unpatched, 0);
}

#[test]
fn the_table_outlives_the_completion() {
    let mut reconciler = Reconciler::new();
    reconciler.step(completion("0", &[("c1", "{}")]));
    reconciler.step(candidate("1", "c1"));
    let end = completion("2", &[("c9", "{}")]);
    let out = reconciler.step(end.clone());
    assert_eq!(
        out.frames,
        vec![frame("1", "response.output_item.added", &patched_data("c1", "{}")), end],
    );
}

#[test]
fn apply_takes_the_given_category() {
    let mut reconciler = Reconciler::new();
    let looks_like_a_candidate = candidate("1", "c1");
    let out = reconciler.apply(looks_like_a_candidate.clone(), Classification::Opaque);
    assert_eq!(out.frames, vec![looks_like_a_candidate]);
    assert_eq!(reconciler.pending_len(), 0);
}

#[test]
fn a_buffered_frame_without_a_document_is_sent_on_as_it_came() {
    let mut reconciler = Reconciler::new();
    let odd = EventFrame::from_data("no json");
    reconciler.apply(odd.clone(), Classification::PendingFixCandidate("c1".to_string()));
    let end = completion("2", &[("c1", "{}")]);
    let out = reconciler.step(end.clone());
    assert_eq!(out.frames, vec![odd, end]);
    assert_eq!(out.unpatched, 1);
}

#[test]
fn frames_after_the_terminator_are_still_taken() {
    let mut reconciler = Reconciler::new();
    reconciler.step(done());
    let late = opaque("9", "late");
    assert_eq!(reconciler.step(late.clone()).frames, vec![late]);
    assert!(reconciler.ended_by_terminator());
}

#[test]
fn raw_text_is_sent_on_whatever_it_holds() {
    let mut reconciler = Reconciler::new();
    reconciler.step(candidate("1", "c1"));
    let raw = candidate_data("c7");
    let out = reconciler.forward_raw(&raw);
    assert_eq!(out.frames, vec![EventFrame::from_data(&raw)]);
    assert_eq!(out.unpatched, 0);
    assert_eq!(reconciler.pending_len(), 1);
    let out = reconciler.forward_raw("[DONE]");
    assert_eq!(out.frames, vec![done()]);
    assert_eq!(reconciler.pending_len(), 1);
    assert!(!reconciler.ended_by_terminator());
}

#[test]
fn take_follows_the_kind_of_input() {
    let mut reconciler = Reconciler::new();
    let held = candidate("1", "c1");
    let (out, open) = reconciler.take(Incoming::Frame(held.clone()));
    assert_eq!(out.frames, vec![]);
    assert!(open);
    let (out, open) = reconciler.take(Incoming::Unreadable("data: ?".to_string()));
    assert_eq!(out.frames, vec![EventFrame::from_data("data: ?")]);
    assert!(open);
    let (out, open) = reconciler.take(Incoming::Frame(opaque("2", "a")));
    assert_eq!(out.frames, vec![opaque("2", "a")]);
    assert!(open);
    let (out, open) = reconciler.take(Incoming::Closed);
    assert_eq!(out.frames, vec![held]);
    assert_eq!(out.unpatched, 1);
    assert!(!open);
    assert!(!reconciler.ended_by_terminator());
}

#[test]
fn take_after_the_terminator_has_nothing_to_flush() {
    let mut reconciler = Reconciler::new();
    reconciler.take(Incoming::Frame(candidate("1", "c1")));
    let (out, open) = reconciler.take(Incoming::Frame(done()));
    assert_eq!(out.frames, vec![candidate("1", "c1"), done()]);
    assert!(open);
    let (out, open) = reconciler.take(Incoming::Closed);
    assert_eq!(out.frames, vec![]);
    assert_eq!(out.unpatched, 0);
    assert!(!open);
    assert!(reconciler.ended_by_terminator());
}
