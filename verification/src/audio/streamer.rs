//! The streaming pipeline: a source with a frame size that was checked once.

use super::source::{Action, AudioSource, StreamAction};
use vstd::arithmetic::power2::is_pow2;
use vstd::prelude::*;

verus! {

/// A source together with the frame size of its streams, a power of two.
pub struct AudioStreamer<T: AudioSource> {
    source: T,
    sample_rate: u32,
    chunk_size: usize,
    channels: u16,
}

impl<T: AudioSource> AudioStreamer<T> {
    /// The source that the pipeline drives.
    pub closed spec fn source(&self) -> T {
        self.source
    }

    /// The sample rate that the source had when the pipeline was made.
    pub closed spec fn sample_rate(&self) -> u32 {
        self.sample_rate
    }

    /// Samples per frame.
    pub closed spec fn chunk_size(&self) -> usize {
        self.chunk_size
    }

    /// Channels per frame: audio is taken as mono.
    pub closed spec fn channels(&self) -> u16 {
        self.channels
    }

    /// The source is valid and the frame size is a power of two.
    pub open spec fn valid(&self) -> bool {
        self.source().valid() && is_pow2(self.chunk_size() as int)
    }

    /// Wraps `source` for streams of frames of `chunk_size` samples.
    pub fn new(source: T, chunk_size: usize) -> (streamer: Self)
        requires
            source.valid(),
            is_pow2(chunk_size as int),
        ensures
            streamer.valid(),
            streamer.source() == source,
            streamer.sample_rate() == source.sample_rate(),
            streamer.chunk_size() == chunk_size,
            streamer.channels() == 1,
    {
        let sample_rate = source.get_sample_rate();
        AudioStreamer { source, sample_rate, chunk_size, channels: 1 }
    }

    /// Starts the source's stream at the pipeline's frame size and hands on
    /// what the source answers.
    pub fn run(&mut self) -> (action: StreamAction<T::Sample>)
        requires
            old(self).valid(),
        ensures
            final(self).valid(),
            T::starts(
                &old(self).source(),
                old(self).chunk_size(),
                &final(self).source(),
                action@,
            ),
            action@ matches Action::Emit(frame) ==> 0 < frame.len() <= old(self).chunk_size(),
            final(self).sample_rate() == old(self).sample_rate(),
            final(self).chunk_size() == old(self).chunk_size(),
            final(self).channels() == old(self).channels(),
    {
        proof {
            reveal(is_pow2);
        }
        self.source.start_streaming(self.chunk_size)
    }

    /// Hands an event on to the source, and the source's answer back.
    pub fn resume(&mut self, event: T::Event) -> (action: StreamAction<T::Sample>)
        requires
            old(self).valid(),
        ensures
            final(self).valid(),
            T::resumes(&old(self).source(), event, &final(self).source(), action@),
            T::is_sink_closed(event) ==> action@ is Finish,
            action@ matches Action::Emit(frame) ==> frame.len() > 0,
            final(self).sample_rate() == old(self).sample_rate(),
            final(self).chunk_size() == old(self).chunk_size(),
            final(self).channels() == old(self).channels(),
    {
        self.source.resume(event)
    }
}

} // verus!
