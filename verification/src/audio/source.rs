//! The contract shared by every audio source.

use std::time::Duration;
use vstd::prelude::*;

verus! {

/// What the driver of a stream has to do next.
#[derive(Debug, PartialEq, Eq)]
pub enum StreamAction<S> {
    /// Hand this frame to the sink, then report whether it was delivered.
    Emit(Vec<S>),
    /// Sleep for this many nanoseconds, then report the wake-up.
    Sleep(u64),
    /// Wait for the capture device to deliver samples, then report them.
    Listen,
    /// Streaming has ended in good order.
    Finish,
    /// Streaming has failed; the text says why.
    Fail(String),
}

/// A `StreamAction` with its frame as a sequence and without the failure text.
pub enum Action<S> {
    Emit(Seq<S>),
    Sleep(u64),
    Listen,
    Finish,
    Fail,
}

impl<S> View for StreamAction<S> {
    type V = Action<S>;

    open spec fn view(&self) -> Action<S> {
        match self {
            StreamAction::Emit(frame) => Action::Emit(frame@),
            StreamAction::Sleep(nanos) => Action::Sleep(*nanos),
            StreamAction::Listen => Action::Listen,
            StreamAction::Finish => Action::Finish,
            StreamAction::Fail(_) => Action::Fail,
        }
    }
}

/// What a `Duration` holds: its whole seconds, and the nanoseconds beyond
/// them, which are less than a second.
pub uninterp spec fn duration_parts(duration: Duration) -> (u64, u32);

/// `Duration::new`: with less than a second of nanoseconds nothing is carried
/// over, so the duration holds exactly the seconds and nanoseconds it was
/// made from.
#[verifier::external_body]
pub(crate) fn duration_from_parts(secs: u64, nanos: u32) -> (duration: Duration)
    requires
        nanos < 1_000_000_000,
    ensures
        duration_parts(duration) == (secs, nanos),
{
    Duration::new(secs, nanos)
}

/// A producer of audio frames.
///
/// A source is driven in turns: `start_streaming` and `resume` each say what
/// the driver has to do next, and the driver reports the outcome as the next
/// event.
pub trait AudioSource: Sized {
    /// What a frame is made of.
    type Sample;

    /// What the driver reports back.
    type Event;

    /// What holds of every source that a constructor made, and is kept by
    /// every turn.
    spec fn valid(&self) -> bool;

    /// Samples per second.
    spec fn sample_rate(&self) -> u32;

    /// Whole seconds and further nanoseconds of the source's playing time.
    spec fn duration(&self) -> (u64, u32);

    /// Number of samples the source holds.
    spec fn length(&self) -> u64;

    /// The event that reports a sink whose receiving end is gone.
    spec fn is_sink_closed(event: Self::Event) -> bool;

    /// How `start_streaming` changes the source and what it answers.
    spec fn starts(pre: &Self, chunk_size: usize, post: &Self, action: Action<Self::Sample>) -> bool;

    /// How `resume` changes the source and what it answers.
    spec fn resumes(pre: &Self, event: Self::Event, post: &Self, action: Action<Self::Sample>) -> bool;

    fn get_sample_rate(&self) -> (rate: u32)
        ensures
            rate == self.sample_rate(),
    ;

    fn get_duration(&self) -> (duration: Duration)
        ensures
            duration_parts(duration) == self.duration(),
    ;

    fn get_length(&self) -> (length: u64)
        ensures
            length == self.length(),
    ;

    /// Begins a stream of frames of `chunk_size` samples.
    fn start_streaming(&mut self, chunk_size: usize) -> (action: StreamAction<Self::Sample>)
        requires
            old(self).valid(),
            chunk_size > 0,
        ensures
            final(self).valid(),
            Self::starts(old(self), chunk_size, final(self), action@),
            action@ matches Action::Emit(frame) ==> 0 < frame.len() <= chunk_size,
    ;

    /// Continues the stream after the driver has done what was asked.
    fn resume(&mut self, event: Self::Event) -> (action: StreamAction<Self::Sample>)
        requires
            old(self).valid(),
        ensures
            final(self).valid(),
            Self::resumes(old(self), event, final(self), action@),
            Self::is_sink_closed(event) ==> action@ is Finish,
            action@ matches Action::Emit(frame) ==> frame.len() > 0,
    ;
}

} // verus!
