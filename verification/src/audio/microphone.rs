//! A live capture device as a source of frames: what the device delivers is
//! gathered and cut into frames of the stream's size.

use super::source::{duration_from_parts, Action, AudioSource, StreamAction};
use std::time::Duration;
use vstd::prelude::*;

verus! {

/// What the driver of a capture stream reports back.
#[derive(Debug, PartialEq, Eq)]
pub enum CaptureEvent<S> {
    /// The device delivered these samples, in this order.
    Captured(Vec<S>),
    /// The sink took the frame.
    Delivered,
    /// The receiving end of the sink is gone.
    SinkClosed,
}

/// A capture source as a plain value.
pub struct MicrophoneState<S> {
    /// Samples per second of the device.
    pub sample_rate: u32,
    /// Samples per frame of the current stream; zero before the first stream.
    pub chunk_size: usize,
    /// Captured samples that no frame has taken yet, in order of arrival.
    pub buffer: Seq<S>,
}

impl<S> MicrophoneState<S> {
    /// Cuts the next frame off the head of the buffer, or listens on when
    /// the buffer holds less than a frame.
    pub open spec fn drain(self) -> (MicrophoneState<S>, Action<S>) {
        if self.buffer.len() >= self.chunk_size {
            (
                MicrophoneState { buffer: self.buffer.skip(self.chunk_size as int), ..self },
                Action::Emit(self.buffer.take(self.chunk_size as int)),
            )
        } else {
            (self, Action::Listen)
        }
    }

    /// Begins a stream with an empty buffer.
    pub open spec fn start(self, chunk_size: usize) -> (MicrophoneState<S>, Action<S>) {
        (MicrophoneState { chunk_size, buffer: Seq::empty(), ..self }, Action::Listen)
    }

    /// Continues a stream. A source that is not streaming, and one whose sink
    /// is closed, finishes and keeps what it holds. Captured samples join the
    /// tail of the buffer. Then, and after a delivery, the next frame is cut.
    pub open spec fn resume(self, event: CaptureEvent<S>) -> (MicrophoneState<S>, Action<S>) {
        if self.chunk_size == 0 {
            (self, Action::Finish)
        } else {
            match event {
                CaptureEvent::SinkClosed => (self, Action::Finish),
                CaptureEvent::Delivered => self.drain(),
                CaptureEvent::Captured(samples) => MicrophoneState {
                    buffer: self.buffer + samples@,
                    ..self
                }.drain(),
            }
        }
    }
}

/// A frame holds exactly as many samples as the stream's frame size, in the
/// order of their arrival, and what it leaves stays buffered behind it.
pub proof fn lemma_frame_continues_capture<S>(state: MicrophoneState<S>)
    requires
        state.drain().1 matches Action::Emit(_),
    ensures
        state.drain().1 matches Action::Emit(frame) && frame.len() == state.chunk_size && frame
            + state.drain().0.buffer == state.buffer,
{
    assert(state.buffer.take(state.chunk_size as int) + state.buffer.skip(state.chunk_size as int)
        =~= state.buffer);
}

/// The default input device as a source of frames without end.
pub struct MicrophoneSource<S> {
    sample_rate: u32,
    chunk_size: usize,
    buffer: Vec<S>,
}

impl<S> View for MicrophoneSource<S> {
    type V = MicrophoneState<S>;

    closed spec fn view(&self) -> MicrophoneState<S> {
        MicrophoneState {
            sample_rate: self.sample_rate,
            chunk_size: self.chunk_size,
            buffer: self.buffer@,
        }
    }
}

impl<S> MicrophoneSource<S> {
    /// A source for a device that captures `sample_rate` samples per second.
    pub fn new(sample_rate: u32) -> (source: Self)
        ensures
            source@ == (MicrophoneState::<S> { sample_rate, chunk_size: 0, buffer: Seq::empty() }),
    {
        MicrophoneSource { sample_rate, chunk_size: 0, buffer: Vec::new() }
    }

    /// Cuts the next frame off the buffer, if it holds one.
    fn drain(&mut self) -> (action: StreamAction<S>)
        requires
            old(self)@.chunk_size > 0,
        ensures
            (final(self)@, action@) == old(self)@.drain(),
    {
        if self.buffer.len() >= self.chunk_size {
            let mut frame = self.buffer.split_off(self.chunk_size);
            std::mem::swap(&mut self.buffer, &mut frame);
            StreamAction::Emit(frame)
        } else {
            StreamAction::Listen
        }
    }
}

impl<S> AudioSource for MicrophoneSource<S> {
    type Sample = S;

    type Event = CaptureEvent<S>;

    open spec fn valid(&self) -> bool {
        true
    }

    open spec fn sample_rate(&self) -> u32 {
        self@.sample_rate
    }

    open spec fn duration(&self) -> (u64, u32) {
        (u64::MAX, 0)
    }

    open spec fn length(&self) -> u64 {
        u64::MAX
    }

    open spec fn is_sink_closed(event: CaptureEvent<S>) -> bool {
        event is SinkClosed
    }

    open spec fn starts(pre: &Self, chunk_size: usize, post: &Self, action: Action<S>) -> bool {
        (post@, action) == pre@.start(chunk_size)
    }

    open spec fn resumes(pre: &Self, event: CaptureEvent<S>, post: &Self, action: Action<S>) -> bool {
        (post@, action) == pre@.resume(event)
    }

    fn get_sample_rate(&self) -> (rate: u32) {
        self.sample_rate
    }

    /// A live source has no end: the longest duration there is.
    fn get_duration(&self) -> (duration: Duration) {
        duration_from_parts(u64::MAX, 0)
    }

    /// A live source has no end: the largest count there is.
    fn get_length(&self) -> (length: u64) {
        u64::MAX
    }

    fn start_streaming(&mut self, chunk_size: usize) -> (action: StreamAction<S>) {
        self.chunk_size = chunk_size;
        self.buffer = Vec::new();
        StreamAction::Listen
    }

    fn resume(&mut self, event: CaptureEvent<S>) -> (action: StreamAction<S>) {
        if self.chunk_size == 0 {
            return StreamAction::Finish;
        }
        match event {
            CaptureEvent::SinkClosed => StreamAction::Finish,
            CaptureEvent::Delivered => self.drain(),
            CaptureEvent::Captured(samples) => {
                let mut samples = samples;
                self.buffer.append(&mut samples);
                self.drain()
            },
        }
    }
}

} // verus!
