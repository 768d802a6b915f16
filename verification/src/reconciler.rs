//! The stateful fold over the frames of one stream.

use crate::classify::{
    calls_view, classify, classify_spec, Classification, ClassificationView, ResolvedCall,
};
use crate::frame::{frames_view, EventFrame, EventFrameView};
use crate::laws::{law_frame_count_from, law_run_unfolds};
use crate::patch::{patched_data, release, released};
use crate::table::{merged, ArgumentTable, Arguments};
use vstd::prelude::*;

verus! {

/// The state of one stream: the frames that wait for their arguments, in the
/// order in which they arrived; the arguments resolved so far; and whether the
/// terminator has been seen.
pub ghost struct ReconcilerView {
    pub pending: Seq<EventFrameView>,
    pub resolved: Arguments,
    pub terminated: bool,
}

/// What one input does: the state after it, the frames it sends on, and how
/// many of these left the buffer without a patch.
pub ghost struct Transition {
    pub next: ReconcilerView,
    pub emitted: Seq<EventFrameView>,
    pub unpatched: nat,
}

/// The state at the start of a stream.
pub open spec fn initial() -> ReconcilerView {
    ReconcilerView { pending: Seq::empty(), resolved: Map::empty(), terminated: false }
}

/// The buffered frames as they leave the buffer, in their order.
pub open spec fn released_all(pending: Seq<EventFrameView>, table: Arguments) -> Seq<
    EventFrameView,
> {
    Seq::new(pending.len(), |i: int| released(pending[i], table))
}

/// How many of the buffered frames have no patch.
pub open spec fn unpatched_among(pending: Seq<EventFrameView>, table: Arguments) -> nat
    decreases pending.len(),
{
    if pending.len() == 0 {
        0
    } else {
        let earlier = unpatched_among(pending.drop_last(), table);
        if patched_data(pending.last().data, table) is None {
            earlier + 1
        } else {
            earlier
        }
    }
}

/// What a frame of the given category does in the given state.
pub open spec fn step_spec(state: ReconcilerView, frame: EventFrameView, class: ClassificationView)
    -> Transition {
    match class {
        ClassificationView::PendingFixCandidate(_) => Transition {
            next: ReconcilerView { pending: state.pending.push(frame), ..state },
            emitted: Seq::empty(),
            unpatched: 0,
        },
        ClassificationView::Completion(calls) => {
            let resolved = merged(state.resolved, calls);
            Transition {
                next: ReconcilerView { pending: Seq::empty(), resolved, ..state },
                emitted: released_all(state.pending, resolved).push(frame),
                unpatched: unpatched_among(state.pending, resolved),
            }
        },
        ClassificationView::Terminator => Transition {
            next: ReconcilerView { pending: Seq::empty(), terminated: true, ..state },
            emitted: state.pending.push(frame),
            unpatched: state.pending.len(),
        },
        ClassificationView::Opaque => Transition {
            next: state,
            emitted: seq![frame],
            unpatched: 0,
        },
    }
}

/// What the end of the input does where no terminator came: the buffer is
/// sent on as it is.
pub open spec fn close_spec(state: ReconcilerView) -> Transition {
    Transition {
        next: ReconcilerView { pending: Seq::empty(), ..state },
        emitted: state.pending,
        unpatched: state.pending.len(),
    }
}

/// The frame that stands for text that could not be read as a frame.
pub open spec fn raw_frame(raw: Seq<char>) -> EventFrameView {
    EventFrameView { id: None, event_name: None, data: raw, retry: None }
}

/// What the transport hands over, one at a time.
pub ghost enum IncomingView {
    Frame(EventFrameView),
    Unreadable(Seq<char>),
    Closed,
}

/// What one input of the transport does: a frame is taken by its category,
/// unreadable text is sent on as an opaque frame, and the end of the input
/// sends the buffer on.
pub open spec fn take_spec(state: ReconcilerView, input: IncomingView) -> Transition {
    match input {
        IncomingView::Frame(frame) => step_spec(state, frame, classify_spec(frame)),
        IncomingView::Unreadable(raw) => step_spec(
            state,
            raw_frame(raw),
            ClassificationView::Opaque,
        ),
        IncomingView::Closed => close_spec(state),
    }
}

/// What a run of frames does, each taken by its own category.
pub open spec fn run_spec(state: ReconcilerView, frames: Seq<EventFrameView>) -> Transition
    decreases frames.len(),
{
    if frames.len() == 0 {
        Transition { next: state, emitted: Seq::empty(), unpatched: 0 }
    } else {
        let earlier = run_spec(state, frames.drop_last());
        let last = step_spec(earlier.next, frames.last(), classify_spec(frames.last()));
        Transition {
            next: last.next,
            emitted: earlier.emitted + last.emitted,
            unpatched: earlier.unpatched + last.unpatched,
        }
    }
}

/// What the transport hands over, one at a time.
#[derive(Clone, Debug, PartialEq, Eq)]
pub enum Incoming {
    /// A frame that was read.
    Frame(EventFrame),
    /// Text that could not be read as a frame.
    Unreadable(String),
    /// The input has ended or broken off.
    Closed,
}

impl View for Incoming {
    type V = IncomingView;

    open spec fn view(&self) -> IncomingView {
        match self {
            Incoming::Frame(frame) => IncomingView::Frame(frame@),
            Incoming::Unreadable(raw) => IncomingView::Unreadable(raw@),
            Incoming::Closed => IncomingView::Closed,
        }
    }
}

/// The frames that one input sends on.
#[derive(Debug)]
pub struct Emission {
    /// The frames, in the order in which they are to be sent.
    pub frames: Vec<EventFrame>,
    /// How many of them left the buffer without a patch.
    pub unpatched: usize,
}

/// The reconciler of one stream.
#[derive(Debug)]
pub struct Reconciler {
    pending: Vec<EventFrame>,
    resolved: ArgumentTable,
    terminated: bool,
}

impl View for Reconciler {
    type V = ReconcilerView;

    closed spec fn view(&self) -> ReconcilerView {
        ReconcilerView {
            pending: frames_view(self.pending@),
            resolved: self.resolved@,
            terminated: self.terminated,
        }
    }
}

impl Emission {
    /// Whether this is what the transition sends on.
    pub open spec fn carries(&self, transition: Transition) -> bool {
        &&& frames_view(self.frames@) == transition.emitted
        &&& self.unpatched == transition.unpatched
    }
}

impl Reconciler {
    /// The reconciler at the start of a stream.
    pub fn new() -> (fresh: Reconciler)
        ensures
            fresh@ == initial(),
    {
        let fresh = Reconciler {
            pending: Vec::new(),
            resolved: ArgumentTable::new(),
            terminated: false,
        };
        assert(frames_view(fresh.pending@) == Seq::<EventFrameView>::empty());
        fresh
    }

    /// How many frames wait in the buffer.
    pub fn pending_len(&self) -> (count: usize)
        ensures
            count == self@.pending.len(),
    {
        self.pending.len()
    }

    /// Whether the terminator has been seen.
    pub fn ended_by_terminator(&self) -> (yes: bool)
        ensures
            yes == self@.terminated,
    {
        self.terminated
    }

    /// Writes the calls of a completion to the table, in their order.
    fn merge(&mut self, calls: &Vec<ResolvedCall>)
        ensures
            final(self).resolved@ == merged(old(self).resolved@, calls_view(calls@)),
            final(self).pending == old(self).pending,
            final(self).terminated == old(self).terminated,
    {
        let ghost shown = calls_view(calls@);
        let mut i: usize = 0;
        while i < calls.len()
            invariant
                i <= calls.len(),
                shown == calls_view(calls@),
                self.resolved@ == merged(old(self).resolved@, shown.take(i as int)),
                self.pending == old(self).pending,
                self.terminated == old(self).terminated,
            decreases calls.len() - i,
        {
            assert(shown.take(i + 1).drop_last() == shown.take(i as int));
            self.resolved.insert(
                ResolvedCall {
                    call_id: calls[i].call_id.clone(),
                    arguments: calls[i].arguments.clone(),
                },
            );
            i += 1;
        }
        assert(shown.take(i as int) == shown);
    }

    /// Empties the buffer: each frame leaves it patched where the table has a
    /// patch for it, and as it came where not.
    fn release_pending(&mut self) -> (out: Emission)
        ensures
            frames_view(out.frames@) == released_all(old(self)@.pending, old(self)@.resolved),
            out.unpatched == unpatched_among(old(self)@.pending, old(self)@.resolved),
            final(self)@ == (ReconcilerView { pending: Seq::empty(), ..old(self)@ }),
    {
        let ghost pending = self@.pending;
        let ghost table = self@.resolved;
        let mut frames: Vec<EventFrame> = Vec::new();
        let mut unpatched: usize = 0;
        let mut i: usize = 0;
        while i < self.pending.len()
            invariant
                i <= self.pending.len(),
                self@ == old(self)@,
                pending == self@.pending,
                table == self@.resolved,
                frames.len() == i,
                unpatched <= i,
                forall|k: int| 0 <= k < i ==> (#[trigger] frames[k])@ == released(pending[k], table),
                unpatched == unpatched_among(pending.take(i as int), table),
            decreases self.pending.len() - i,
        {
            assert(pending.take(i + 1).drop_last() == pending.take(i as int));
            let (frame, patched) = release(&self.pending[i], &self.resolved);
            if !patched {
                unpatched += 1;
            }
            frames.push(frame);
            i += 1;
        }
        assert(pending.take(i as int) == pending);
        self.pending = Vec::new();
        assert(frames_view(self.pending@) == Seq::<EventFrameView>::empty());
        Emission { frames, unpatched }
    }

    /// Empties the buffer: each frame leaves it as it came.
    fn drain_pending(&mut self) -> (out: Emission)
        ensures
            frames_view(out.frames@) == old(self)@.pending,
            out.unpatched == old(self)@.pending.len(),
            final(self)@ == (ReconcilerView { pending: Seq::empty(), ..old(self)@ }),
    {
        let unpatched = self.pending.len();
        let mut frames: Vec<EventFrame> = Vec::new();
        frames.append(&mut self.pending);
        assert(frames_view(self.pending@) == Seq::<EventFrameView>::empty());
        Emission { frames, unpatched }
    }

    /// Takes one frame whose category is given, and returns what is to be
    /// sent on for it.
    pub fn apply(&mut self, frame: EventFrame, class: Classification) -> (out: Emission)
        ensures
            out.carries(step_spec(old(self)@, frame@, class@)),
            final(self)@ == step_spec(old(self)@, frame@, class@).next,
    {
        match class {
            Classification::PendingFixCandidate(_) => {
                let ghost before = frames_view(self.pending@);
                self.pending.push(frame);
                assert(frames_view(self.pending@) == before.push(frame@));
                let out = Emission { frames: Vec::new(), unpatched: 0 };
                assert(frames_view(out.frames@) == Seq::<EventFrameView>::empty());
                out
            },
            Classification::Completion(calls) => {
                self.merge(&calls);
                let mut out = self.release_pending();
                let ghost before = frames_view(out.frames@);
                out.frames.push(frame);
                assert(frames_view(out.frames@) == before.push(frame@));
                out
            },
            Classification::Terminator => {
                let mut out = self.drain_pending();
                self.terminated = true;
                let ghost before = frames_view(out.frames@);
                out.frames.push(frame);
                assert(frames_view(out.frames@) == before.push(frame@));
                out
            },
            Classification::Opaque => {
                let mut frames: Vec<EventFrame> = Vec::new();
                frames.push(frame);
                let out = Emission { frames, unpatched: 0 };
                assert(frames_view(out.frames@) == seq![frame@]);
                out
            },
        }
    }

    /// Takes one frame, and returns what is to be sent on for it.
    pub fn step(&mut self, frame: EventFrame) -> (out: Emission)
        ensures
            out.carries(step_spec(old(self)@, frame@, classify_spec(frame@))),
            final(self)@ == step_spec(old(self)@, frame@, classify_spec(frame@)).next,
    {
        let class = classify(&frame);
        self.apply(frame, class)
    }

    /// Takes a run of frames in their order, and returns what is to be sent
    /// on for all of them.
    pub fn run(&mut self, frames: &Vec<EventFrame>) -> (out: Emission)
        ensures
            out.carries(run_spec(old(self)@, frames_view(frames@))),
            final(self)@ == run_spec(old(self)@, frames_view(frames@)).next,
    {
        let ghost start = self@;
        let ghost input = frames_view(frames@);
        let mut sent: Vec<EventFrame> = Vec::new();
        let mut unpatched: usize = 0;
        let mut i: usize = 0;
        while i < frames.len()
            invariant
                i <= frames.len(),
                start == old(self)@,
                input == frames_view(frames@),
                frames_view(sent@) == run_spec(start, input.take(i as int)).emitted,
                unpatched == run_spec(start, input.take(i as int)).unpatched,
                self@ == run_spec(start, input.take(i as int)).next,
            decreases frames.len() - i,
        {
            let mut step = self.step(frames[i].duplicate());
            sent.append(&mut step.frames);
            proof {
                law_run_unfolds(start, input, i as int);
                law_frame_count_from(start, input.take(i + 1));
                assert(frames_view(sent@).len() == sent.len());
            }
            unpatched += step.unpatched;
            i += 1;
        }
        assert(input.take(i as int) == input);
        Emission { frames: sent, unpatched }
    }

    /// Takes what could not be read as a frame: it is sent on at once as a
    /// frame whose data is the raw text, whatever the text holds, and nothing
    /// else changes.
    pub fn forward_raw(&mut self, raw: &str) -> (out: Emission)
        ensures
            out.carries(step_spec(old(self)@, raw_frame(raw@), ClassificationView::Opaque)),
            final(self)@ == old(self)@,
    {
        self.apply(EventFrame::from_data(raw), Classification::Opaque)
    }

    /// Ends the stream where the input ended: what still waits in the buffer
    /// is sent on as it arrived.
    pub fn close(&mut self) -> (out: Emission)
        ensures
            out.carries(close_spec(old(self)@)),
            final(self)@ == close_spec(old(self)@).next,
    {
        self.drain_pending()
    }

    /// Takes one input of the transport. Returns what is to be sent on for
    /// it, and whether more input is to be read: all but the end of the input
    /// leave the stream open.
    pub fn take(&mut self, input: Incoming) -> (out: (Emission, bool))
        ensures
            out.0.carries(take_spec(old(self)@, input@)),
            final(self)@ == take_spec(old(self)@, input@).next,
            out.1 == !(input is Closed),
    {
        match input {
            Incoming::Frame(frame) => (self.step(frame), true),
            Incoming::Unreadable(raw) => (self.forward_raw(raw.as_str()), true),
            Incoming::Closed => (self.close(), false),
        }
    }
}

} // verus!
