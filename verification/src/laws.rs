//! What holds of every stream.

use crate::classify::{
    candidate_call_id, classify_spec, resolved_calls, ClassificationView, ResolvedCallView,
};
use crate::codec::{json_parsed, json_rendered};
use crate::frame::EventFrameView;
use crate::json::{law_put_member, JsonView};
use crate::patch::{patch_call_id, patched_data, released, with_arguments};
use crate::reconciler::{
    close_spec, initial, released_all, run_spec, step_spec, unpatched_among, ReconcilerView,
};
use crate::table::{merged, Arguments};
use vstd::prelude::*;

verus! {

/// Whether a frame of this category empties the buffer.
pub open spec fn releases(class: ClassificationView) -> bool {
    class is Completion || class is Terminator
}

/// Whether a frame of this category is held back.
pub open spec fn is_held(class: ClassificationView) -> bool {
    class is PendingFixCandidate
}

/// The frames of a run that are held back, in their order.
pub open spec fn held_frames(frames: Seq<EventFrameView>) -> Seq<EventFrameView>
    decreases frames.len(),
{
    if frames.len() == 0 {
        Seq::empty()
    } else if is_held(classify_spec(frames.last())) {
        held_frames(frames.drop_last()).push(frames.last())
    } else {
        held_frames(frames.drop_last())
    }
}

/// A run of frames is the run of all but the last, and then the last.
pub proof fn law_run_unfolds(state: ReconcilerView, frames: Seq<EventFrameView>, k: int)
    requires
        0 <= k < frames.len(),
    ensures
        ({
            let before = run_spec(state, frames.take(k));
            let step = step_spec(before.next, frames[k], classify_spec(frames[k]));
            let after = run_spec(state, frames.take(k + 1));
            &&& after.next == step.next
            &&& after.emitted == before.emitted + step.emitted
            &&& after.unpatched == before.unpatched + step.unpatched
        }),
{
    assert(frames.take(k + 1).drop_last() == frames.take(k));
}

/// No more frames leave the buffer without a patch than the buffer holds.
pub proof fn law_unpatched_bound(pending: Seq<EventFrameView>, table: Arguments)
    ensures
        unpatched_among(pending, table) <= pending.len(),
    decreases pending.len(),
{
    if pending.len() > 0 {
        law_unpatched_bound(pending.drop_last(), table);
    }
}

/// One frame in, one frame out or one frame more in the buffer: what a step
/// sends on and what it leaves in the buffer are together one more than the
/// buffer held.
pub proof fn law_step_conserves(
    state: ReconcilerView,
    frame: EventFrameView,
    class: ClassificationView,
)
    ensures
        ({
            let step = step_spec(state, frame, class);
            &&& step.emitted.len() + step.next.pending.len() == state.pending.len() + 1
            &&& step.unpatched <= state.pending.len()
            &&& releases(class) ==> step.next.pending.len() == 0
        }),
{
    match class {
        ClassificationView::Completion(calls) => {
            law_unpatched_bound(state.pending, step_spec(state, frame, class).next.resolved);
        },
        _ => {},
    }
}

/// Frame-count conservation from any state: after any run of frames, the
/// frames sent on and the frames in the buffer are as many as the frames that
/// came in and the frames that the buffer held before.
pub proof fn law_frame_count_from(state: ReconcilerView, frames: Seq<EventFrameView>)
    ensures
        ({
            let run = run_spec(state, frames);
            &&& run.emitted.len() + run.next.pending.len() == state.pending.len() + frames.len()
            &&& run.unpatched <= run.emitted.len()
        }),
    decreases frames.len(),
{
    if frames.len() > 0 {
        law_frame_count_from(state, frames.drop_last());
        let earlier = run_spec(state, frames.drop_last());
        law_step_conserves(earlier.next, frames.last(), classify_spec(frames.last()));
    }
}

/// Frame-count conservation for a whole stream: of a stream taken from its
/// start, as many frames are sent on as came in once the buffer is empty,
/// which it is after a completion or the terminator, and after the close.
pub proof fn law_frame_count(frames: Seq<EventFrameView>)
    ensures
        ({
            let run = run_spec(initial(), frames);
            let closed = close_spec(run.next);
            &&& run.emitted.len() + run.next.pending.len() == frames.len()
            &&& (run.emitted + closed.emitted).len() == frames.len()
            &&& closed.next.pending.len() == 0
            &&& frames.len() > 0 && releases(classify_spec(frames.last())) ==> run.emitted.len()
                == frames.len()
        }),
{
    law_frame_count_from(initial(), frames);
    if frames.len() > 0 {
        let earlier = run_spec(initial(), frames.drop_last());
        law_step_conserves(earlier.next, frames.last(), classify_spec(frames.last()));
    }
}

/// A run of two parts is the run of the first part and then, from the state
/// that it leaves, the run of the second.
pub proof fn law_run_splits(
    state: ReconcilerView,
    first: Seq<EventFrameView>,
    second: Seq<EventFrameView>,
)
    ensures
        ({
            let head = run_spec(state, first);
            let tail = run_spec(head.next, second);
            let whole = run_spec(state, first + second);
            &&& whole.next == tail.next
            &&& whole.emitted == head.emitted + tail.emitted
            &&& whole.unpatched == head.unpatched + tail.unpatched
        }),
    decreases second.len(),
{
    if second.len() > 0 {
        law_run_splits(state, first, second.drop_last());
        assert((first + second).drop_last() == first + second.drop_last());
        let head = run_spec(state, first);
        let tail = run_spec(head.next, second);
        let shorter = run_spec(head.next, second.drop_last());
        let whole = run_spec(state, first + second);
        assert(whole.emitted == head.emitted + tail.emitted) by {
            let last = step_spec(shorter.next, second.last(), classify_spec(second.last()));
            assert((head.emitted + shorter.emitted) + last.emitted == head.emitted + (
            shorter.emitted + last.emitted));
        }
    }
}

/// What has been sent on is never taken back: the frames sent on for the
/// first `k` frames of a run are the first frames sent on for the whole run.
pub proof fn law_emission_grows(state: ReconcilerView, frames: Seq<EventFrameView>, k: int)
    requires
        0 <= k <= frames.len(),
    ensures
        run_spec(state, frames.take(k)).emitted.is_prefix_of(run_spec(state, frames).emitted),
{
    law_run_splits(state, frames.take(k), frames.skip(k));
    assert(frames.take(k) + frames.skip(k) == frames);
}

/// Where a frame stands in what is sent on. Let `at` be the number of frames
/// sent on before frame `k` came, and `held` the buffer at that moment.
/// A candidate sends nothing on. An opaque frame stands at `at`, as it came.
/// A completion or a terminator stands at `at + held.len()`, as it came, and
/// the frames from `at` up to it are the buffer as a block, in the order of
/// arrival: patched where the table then has a patch, else as they came (for
/// a terminator: all as they came).
pub proof fn law_block_order(state: ReconcilerView, frames: Seq<EventFrameView>, k: int)
    requires
        0 <= k < frames.len(),
    ensures
        ({
            let before = run_spec(state, frames.take(k));
            let whole = run_spec(state, frames).emitted;
            let at = before.emitted.len() as int;
            let held = before.next.pending;
            match classify_spec(frames[k]) {
                ClassificationView::PendingFixCandidate(_) => run_spec(
                    state,
                    frames.take(k + 1),
                ).emitted == before.emitted,
                ClassificationView::Opaque => at < whole.len() && whole[at] == frames[k],
                ClassificationView::Completion(calls) => {
                    let table = merged(before.next.resolved, calls);
                    &&& at + held.len() < whole.len()
                    &&& whole.subrange(at, at + held.len()) == released_all(held, table)
                    &&& whole[at + held.len()] == frames[k]
                },
                ClassificationView::Terminator => {
                    &&& at + held.len() < whole.len()
                    &&& whole.subrange(at, at + held.len()) == held
                    &&& whole[at + held.len()] == frames[k]
                },
            }
        }),
{
    law_run_unfolds(state, frames, k);
    law_emission_grows(state, frames, k + 1);
    let before = run_spec(state, frames.take(k));
    let after = run_spec(state, frames.take(k + 1));
    let whole = run_spec(state, frames).emitted;
    let at = before.emitted.len() as int;
    let step = step_spec(before.next, frames[k], classify_spec(frames[k]));
    assert forall|i: int| 0 <= i < step.emitted.len() implies whole[at + i] == step.emitted[i] by {
        assert(after.emitted[at + i] == step.emitted[i]);
    }
    let held = before.next.pending;
    match classify_spec(frames[k]) {
        ClassificationView::PendingFixCandidate(_) => {},
        ClassificationView::Opaque => {
            assert(whole[at + 0] == step.emitted[0]);
        },
        ClassificationView::Completion(calls) => {
            let table = merged(before.next.resolved, calls);
            assert(whole[at + held.len()] == step.emitted[held.len() as int]);
            assert(whole.subrange(at, at + held.len()) =~= released_all(held, table)) by {
                assert forall|i: int| 0 <= i < held.len() implies whole.subrange(
                    at,
                    at + held.len(),
                )[i] == released_all(held, table)[i] by {
                    assert(whole[at + i] == step.emitted[i]);
                }
            }
        },
        ClassificationView::Terminator => {
            assert(whole[at + held.len()] == step.emitted[held.len() as int]);
            assert(whole.subrange(at, at + held.len()) =~= held) by {
                assert forall|i: int| 0 <= i < held.len() implies whole.subrange(
                    at,
                    at + held.len(),
                )[i] == held[i] by {
                    assert(whole[at + i] == step.emitted[i]);
                }
            }
        },
    }
}

/// The number of frames sent on never falls as more frames come in.
pub proof fn law_emission_count_grows(
    state: ReconcilerView,
    frames: Seq<EventFrameView>,
    i: int,
    j: int,
)
    requires
        0 <= i <= j <= frames.len(),
    ensures
        run_spec(state, frames.take(i)).emitted.len() <= run_spec(
            state,
            frames.take(j),
        ).emitted.len(),
{
    law_emission_grows(state, frames.take(j), i);
    assert(frames.take(j).take(i) == frames.take(i));
}

/// Order preservation: of two frames that are not held back, the one that
/// came first is sent on first, and both are sent on as they came. The place
/// of such a frame is the last of those sent on when it has been taken.
pub proof fn law_order_preserved(
    state: ReconcilerView,
    frames: Seq<EventFrameView>,
    i: int,
    j: int,
)
    requires
        0 <= i < j < frames.len(),
        !is_held(classify_spec(frames[i])),
        !is_held(classify_spec(frames[j])),
    ensures
        ({
            let whole = run_spec(state, frames).emitted;
            let first = run_spec(state, frames.take(i + 1)).emitted.len() - 1;
            let second = run_spec(state, frames.take(j + 1)).emitted.len() - 1;
            &&& 0 <= first < second < whole.len()
            &&& whole[first] == frames[i]
            &&& whole[second] == frames[j]
        }),
{
    law_block_order(state, frames, i);
    law_block_order(state, frames, j);
    law_run_unfolds(state, frames, i);
    law_run_unfolds(state, frames, j);
    law_emission_count_grows(state, frames, i + 1, j);
}

/// The buffer holds the candidates since it was last emptied: after a run in
/// which no completion and no terminator came, the buffer is what it was and
/// then the candidates of the run, in the order of arrival.
pub proof fn law_buffer_holds_candidates(state: ReconcilerView, frames: Seq<EventFrameView>)
    requires
        forall|i: int| 0 <= i < frames.len() ==> !releases(#[trigger] classify_spec(frames[i])),
    ensures
        run_spec(state, frames).next.pending == state.pending + held_frames(frames),
        run_spec(state, frames).next.resolved == state.resolved,
    decreases frames.len(),
{
    if frames.len() > 0 {
        let shorter = frames.drop_last();
        assert forall|i: int| 0 <= i < shorter.len() implies !releases(
            #[trigger] classify_spec(shorter[i]),
        ) by {}
        law_buffer_holds_candidates(state, shorter);
        if is_held(classify_spec(frames.last())) {
            assert((state.pending + held_frames(shorter)).push(frames.last()) == state.pending
                + held_frames(shorter).push(frames.last()));
        }
    }
}

/// Passthrough: a run in which neither a candidate nor a completion comes,
/// taken with an empty buffer, is sent on unchanged, frame for frame.
pub proof fn law_passthrough(state: ReconcilerView, frames: Seq<EventFrameView>)
    requires
        state.pending.len() == 0,
        forall|i: int|
            0 <= i < frames.len() ==> {
                let class = #[trigger] classify_spec(frames[i]);
                class is Opaque || class is Terminator
            },
    ensures
        run_spec(state, frames).emitted == frames,
        run_spec(state, frames).unpatched == 0,
        run_spec(state, frames).next.pending.len() == 0,
        run_spec(state, frames).next.resolved == state.resolved,
    decreases frames.len(),
{
    if frames.len() > 0 {
        let shorter = frames.drop_last();
        assert forall|i: int| 0 <= i < shorter.len() implies {
            let class = #[trigger] classify_spec(shorter[i]);
            class is Opaque || class is Terminator
        } by {}
        law_passthrough(state, shorter);
    }
}

/// A frame leaves the buffer as it came but for its data: its identifier, its
/// event name and its retry time stay, and its data is either what it was or
/// the patched text.
pub proof fn law_release_changes_data_only(frame: EventFrameView, table: Arguments)
    ensures
        released(frame, table).id == frame.id,
        released(frame, table).event_name == frame.event_name,
        released(frame, table).retry == frame.retry,
        released(frame, table) == frame || patched_data(frame.data, table) == Some(
            released(frame, table).data,
        ),
{
}

/// A candidate is looked up under its own identifier: the identifier that
/// makes a frame a candidate is the one under which its patch is found.
pub proof fn law_candidate_lookup(frame: EventFrameView, call_id: Seq<char>)
    requires
        classify_spec(frame) == ClassificationView::PendingFixCandidate(call_id),
    ensures
        json_parsed(frame.data) matches Some(doc) && candidate_call_id(doc) == Some(call_id)
            && patch_call_id(doc) == Some(call_id),
{
}

/// Unresolved fallback: a candidate whose call identifier the table does not
/// hold leaves the buffer as it came.
pub proof fn law_unresolved_is_unmodified(
    frame: EventFrameView,
    call_id: Seq<char>,
    table: Arguments,
)
    requires
        classify_spec(frame) == ClassificationView::PendingFixCandidate(call_id),
        !table.contains_key(call_id),
    ensures
        released(frame, table) == frame,
        patched_data(frame.data, table) is None,
{
}

/// Patch correctness: a candidate whose call identifier the table holds
/// leaves the buffer with the text of its document in which the arguments of
/// the item are those of the table; only its data changes.
pub proof fn law_resolved_is_patched(frame: EventFrameView, call_id: Seq<char>, table: Arguments)
    requires
        classify_spec(frame) == ClassificationView::PendingFixCandidate(call_id),
        table.contains_key(call_id),
    ensures
        ({
            let doc = json_parsed(frame.data)->0;
            let text = json_rendered(with_arguments(doc, table[call_id]));
            &&& patched_data(frame.data, table) == Some(text)
            &&& released(frame, table) == frame.with_data(text)
        }),
{
}

/// What the patch changes in a document: the item's arguments are the given
/// ones; every other member of the item, and every other member of the
/// document, is as before.
pub proof fn law_patch_changes_arguments_only(
    doc: JsonView,
    arguments: Seq<char>,
    other: Seq<char>,
)
    requires
        doc.member("item"@) matches Some(item) && item is Object,
    ensures
        ({
            let item = doc.member("item"@)->0;
            let patched = with_arguments(doc, arguments);
            &&& patched.member("item"@) matches Some(changed) && {
                &&& changed.text_member("arguments"@) == Some(arguments)
                &&& other != "arguments"@ ==> changed.member(other) == item.member(other)
            }
            &&& other != "item"@ ==> patched.member(other) == doc.member(other)
        }),
{
    let item = doc.member("item"@)->0;
    let value = JsonView::Text(arguments);
    law_put_member(item->Object_0, "arguments"@, value, other);
    law_put_member(doc->Object_0, "item"@, item.with_member("arguments"@, value), other);
}

/// The identifiers of a table after a completion: those it had, and those of
/// the calls that the completion resolved.
pub proof fn law_table_keys(table: Arguments, calls: Seq<ResolvedCallView>, call_id: Seq<char>)
    ensures
        merged(table, calls).contains_key(call_id) <==> table.contains_key(call_id) || exists|
            i: int,
        | 0 <= i < calls.len() && (#[trigger] calls[i]).call_id == call_id,
    decreases calls.len(),
{
    if calls.len() > 0 {
        let shorter = calls.drop_last();
        law_table_keys(table, shorter, call_id);
        if exists|i: int| 0 <= i < calls.len() && (#[trigger] calls[i]).call_id == call_id {
            let i = choose|i: int| 0 <= i < calls.len() && (#[trigger] calls[i]).call_id
                == call_id;
            if i < shorter.len() {
                assert(shorter[i] == calls[i]);
            }
        }
    }
}

/// Last write wins: after a completion, the table holds for an identifier the
/// arguments of the last call that the completion resolved for it.
pub proof fn law_table_last_write(table: Arguments, calls: Seq<ResolvedCallView>, i: int)
    requires
        0 <= i < calls.len(),
        forall|j: int| i < j < calls.len() ==> (#[trigger] calls[j]).call_id != calls[i].call_id,
    ensures
        merged(table, calls).contains_key(calls[i].call_id),
        merged(table, calls)[calls[i].call_id] == calls[i].arguments,
    decreases calls.len(),
{
    if i < calls.len() - 1 {
        let shorter = calls.drop_last();
        assert forall|j: int| i < j < shorter.len() implies (#[trigger] shorter[j]).call_id
            != shorter[i].call_id by {}
        law_table_last_write(table, shorter, i);
    }
}

/// A completion resolves no empty arguments.
pub proof fn law_resolved_arguments_are_not_empty(output: Seq<JsonView>, i: int)
    requires
        0 <= i < resolved_calls(output).len(),
    ensures
        resolved_calls(output)[i].arguments.len() > 0,
    decreases output.len(),
{
    if output.len() > 0 {
        let earlier = resolved_calls(output.drop_last());
        if i < earlier.len() {
            law_resolved_arguments_are_not_empty(output.drop_last(), i);
        }
    }
}

/// The terminator as a safety net: whatever the buffer holds when the
/// terminator comes is sent on as it came, before the terminator, and the
/// buffer is then empty.
pub proof fn law_terminator_flushes(state: ReconcilerView, frame: EventFrameView)
    ensures
        ({
            let step = step_spec(state, frame, ClassificationView::Terminator);
            &&& step.emitted == state.pending + seq![frame]
            &&& step.next.pending.len() == 0
            &&& step.next.terminated
            &&& step.next.resolved == state.resolved
        }),
{
}

} // verus!
