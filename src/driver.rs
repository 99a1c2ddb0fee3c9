use vstd::prelude::*;

verus! {

/// Where the render loop stands.
#[derive(Clone, Copy, Debug, PartialEq, Eq, Structural)]
pub enum FrameLoop {
    /// Not started: no frame has been requested.
    Idle,
    /// A frame callback is armed with the host.
    Looping,
    /// A frame failed; no further frame is requested.
    Halted,
}

/// What the host is asked to do after a transition.
#[derive(Clone, Copy, Debug, PartialEq, Eq, Structural)]
pub enum FrameAction {
    /// Arm the callback for the next animation frame.
    RequestFrame,
    /// Arm nothing.
    Wait,
}

/// Starting arms the first frame, once.
pub open spec fn start_spec(s: FrameLoop) -> (FrameLoop, FrameAction) {
    match s {
        FrameLoop::Idle => (FrameLoop::Looping, FrameAction::RequestFrame),
        _ => (s, FrameAction::Wait),
    }
}

/// After a drawn frame the loop re-arms; after a failed one it halts for good.
pub open spec fn frame_spec(s: FrameLoop, drawn: bool) -> (FrameLoop, FrameAction) {
    match s {
        FrameLoop::Looping => if drawn {
            (FrameLoop::Looping, FrameAction::RequestFrame)
        } else {
            (FrameLoop::Halted, FrameAction::Wait)
        },
        _ => (s, FrameAction::Wait),
    }
}

/// The state after a run of frames, and how many next frames it requested.
pub open spec fn run_frames(s: FrameLoop, drawn: Seq<bool>) -> (FrameLoop, nat)
    decreases drawn.len(),
{
    if drawn.len() == 0 {
        (s, 0)
    } else {
        let (before, requested) = run_frames(s, drawn.drop_last());
        let (after, action) = frame_spec(before, drawn.last());
        (after, if action == FrameAction::RequestFrame {
            requested + 1
        } else {
            requested
        })
    }
}

impl FrameLoop {
    pub fn new() -> (r: FrameLoop)
        ensures
            r == FrameLoop::Idle,
    {
        FrameLoop::Idle
    }

    /// Arms the loop once its program and buffers exist.
    pub fn start(&self) -> (r: (FrameLoop, FrameAction))
        ensures
            r == start_spec(*self),
    {
        match self {
            FrameLoop::Idle => (FrameLoop::Looping, FrameAction::RequestFrame),
            _ => (*self, FrameAction::Wait),
        }
    }

    /// Takes the result of one animation frame: `drawn` is whether the scene
    /// drew without error.
    pub fn on_frame(&self, drawn: bool) -> (r: (FrameLoop, FrameAction))
        ensures
            r == frame_spec(*self, drawn),
    {
        match self {
            FrameLoop::Looping => if drawn {
                (FrameLoop::Looping, FrameAction::RequestFrame)
            } else {
                (FrameLoop::Halted, FrameAction::Wait)
            },
            _ => (*self, FrameAction::Wait),
        }
    }
}

/// A started loop whose frames all draw keeps looping and requests exactly
/// one next frame per frame.
pub proof fn lemma_drawn_frames_keep_looping(drawn: Seq<bool>)
    requires
        forall|i: int| 0 <= i < drawn.len() ==> drawn[i],
    ensures
        run_frames(FrameLoop::Looping, drawn) == (FrameLoop::Looping, drawn.len()),
    decreases drawn.len(),
{
    if drawn.len() > 0 {
        lemma_drawn_frames_keep_looping(drawn.drop_last());
    }
}

/// Once a frame fails the loop is halted for good: whatever follows, no frame
/// is requested again.
pub proof fn lemma_failed_frame_halts(drawn: Seq<bool>, k: int)
    requires
        0 <= k < drawn.len(),
        !drawn[k],
    ensures
        run_frames(FrameLoop::Looping, drawn).0 == FrameLoop::Halted,
        run_frames(FrameLoop::Looping, drawn).1 <= k,
    decreases drawn.len(),
{
    let rest = drawn.drop_last();
    if k == drawn.len() - 1 {
        lemma_requests_bounded(FrameLoop::Looping, rest);
    } else {
        lemma_failed_frame_halts(rest, k);
    }
}

/// A run requests at most one frame per frame, and never returns to idle.
proof fn lemma_requests_bounded(s: FrameLoop, drawn: Seq<bool>)
    ensures
        run_frames(s, drawn).1 <= drawn.len(),
        s != FrameLoop::Idle ==> run_frames(s, drawn).0 != FrameLoop::Idle,
    decreases drawn.len(),
{
    if drawn.len() > 0 {
        lemma_requests_bounded(s, drawn.drop_last());
    }
}

} // verus!
