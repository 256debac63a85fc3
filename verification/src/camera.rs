//! The camera side: handing one frame to whoever asked for it, and when the
//! camera pipeline stops.

use vstd::prelude::*;

verus! {

/// Whether a frame has been asked for and not yet handed over.
pub struct FrameRequest {
    pending: bool,
}

impl View for FrameRequest {
    type V = bool;

    closed spec fn view(&self) -> bool {
        self.pending
    }
}

impl FrameRequest {
    /// No frame asked for.
    pub fn new() -> (r: Self)
        ensures
            !r@,
    {
        FrameRequest { pending: false }
    }

    /// Asks for the next frame.
    pub fn request(&mut self)
        ensures
            final(self)@,
    {
        self.pending = true;
    }

    /// Called for each frame the camera produces: whether to hand this one
    /// over.  A frame is handed over only when one was asked for, and each
    /// request is answered by one frame.
    pub fn on_sample(&mut self) -> (hand_over: bool)
        ensures
            hand_over == old(self)@,
            !final(self)@,
    {
        let hand_over = self.pending;
        self.pending = false;
        hand_over
    }
}

/// A message from the camera pipeline's bus.
#[derive(Debug, Clone, Copy, PartialEq, Eq, Structural)]
pub enum BusMessage {
    /// An element reported an error.
    Error,
    /// The stream ended.
    EndOfStream,
    /// Anything else.
    Other,
}

/// Whether the camera pipeline stops on this message: on an error and at
/// the end of the stream.
pub fn ends_pipeline(message: BusMessage) -> (stop: bool)
    ensures
        stop == (message != BusMessage::Other),
{
    match message {
        BusMessage::Other => false,
        _ => true,
    }
}

} // verus!

verus! {

/// Starting with a request pending or not, the frame hand-over after the
/// calls `calls` in turn (`true`: `request`, `false`: `on_sample`): whether
/// a request is pending afterwards, and how many frames were handed over.
pub open spec fn hand_overs(pending: bool, calls: Seq<bool>) -> (bool, nat)
    decreases calls.len(),
{
    if calls.len() == 0 {
        (pending, 0)
    } else {
        let (p, handed) = hand_overs(pending, calls.drop_last());
        if calls.last() {
            (true, handed)
        } else {
            (false, handed + if p { 1nat } else { 0nat })
        }
    }
}

/// How many of `calls` are requests.
pub open spec fn requests_made(calls: Seq<bool>) -> nat
    decreases calls.len(),
{
    if calls.len() == 0 {
        0
    } else {
        requests_made(calls.drop_last()) + if calls.last() { 1nat } else { 0nat }
    }
}

/// Starting from a fresh `FrameRequest`, no more frames are handed over
/// than were asked for, and a pending request counts among those not yet
/// answered.
pub proof fn lemma_at_most_one_frame_per_request(calls: Seq<bool>)
    ensures
        hand_overs(false, calls).1 + (if hand_overs(false, calls).0 { 1nat } else { 0nat })
            <= requests_made(calls),
        hand_overs(false, calls).1 <= requests_made(calls),
    decreases calls.len(),
{
    if calls.len() > 0 {
        lemma_at_most_one_frame_per_request(calls.drop_last());
    }
}

} // verus!
