//! A WAV file held in memory, streamed as paced frames of 16-bit samples.

use super::pacing::{file_duration, frame_duration_nanos, frame_nanos, next_due, playing_time};
use super::source::{duration_parts, Action, AudioSource, StreamAction};
use hound::WavReader;
use std::io::Cursor;
use std::time::Duration;
use vstd::prelude::*;

verus! {

/// `hound::WavReader`, the decoder; what is known of one is what the
/// functions below say of it.
#[verifier::external_type_specification]
#[verifier::external_body]
#[verifier::reject_recursive_types(R)]
pub struct ExWavReader<R>(hound::WavReader<R>);

/// `std::io::Cursor`, through which the decoder reads bytes held in memory.
#[verifier::external_type_specification]
#[verifier::external_body]
#[verifier::reject_recursive_types(T)]
pub struct ExCursor<T>(std::io::Cursor<T>);

/// `hound::Error`, of which only the text is used.
#[verifier::external_type_specification]
#[verifier::external_body]
pub struct ExHoundError(hound::Error);

/// What `hound::WavReader::new` makes of the bytes of a file: nothing when it
/// rejects the header, else the sample rate of the header and, in order, what
/// reading each sample of the data chunk as `i16` gives: the sample, or
/// nothing where that read fails.
pub uninterp spec fn wav_decode(bytes: Seq<u8>) -> Option<(u32, Seq<Option<i16>>)>;

/// What the sample iterator of a reader will still yield, in order: each
/// sample, or nothing where the read of one fails.
pub uninterp spec fn wav_pending(reader: WavReader<Cursor<Vec<u8>>>) -> Seq<Option<i16>>;

/// The sample rate in the header that a reader was made from.
pub uninterp spec fn wav_sample_rate(reader: WavReader<Cursor<Vec<u8>>>) -> u32;

/// The number of samples in the data chunk that a reader was made from.
pub uninterp spec fn wav_len(reader: WavReader<Cursor<Vec<u8>>>) -> u32;

/// `hound::WavReader::new` on bytes in memory. It fails exactly where the
/// header is rejected; the reader it gives has read no sample yet, so all the
/// samples of the data chunk are pending.
#[verifier::external_body]
fn open_reader(bytes: Vec<u8>) -> (opened: Result<WavReader<Cursor<Vec<u8>>>, hound::Error>)
    ensures
        match wav_decode(bytes@) {
            Some((rate, data)) => opened matches Ok(reader) && wav_sample_rate(reader) == rate
                && wav_pending(reader) == data && wav_len(reader) == data.len(),
            None => opened is Err,
        },
{
    WavReader::new(Cursor::new(bytes))
}

/// `hound::WavReader::spec`, of which the sample rate is taken.
#[verifier::external_body]
fn reader_sample_rate(reader: &WavReader<Cursor<Vec<u8>>>) -> (rate: u32)
    ensures
        rate == wav_sample_rate(*reader),
{
    reader.spec().sample_rate
}

/// `hound::WavReader::len`: the number of samples of the data chunk, however
/// many have been read.
#[verifier::external_body]
fn reader_len(reader: &WavReader<Cursor<Vec<u8>>>) -> (len: u32)
    ensures
        len == wav_len(*reader),
{
    reader.len()
}

/// `next` on `hound::WavReader::samples`: nothing once every sample of the
/// data chunk has been read; else the next pending item, which is then no
/// longer pending, whether its read succeeded or failed.
#[verifier::external_body]
fn next_sample(reader: &mut WavReader<Cursor<Vec<u8>>>) -> (item: Option<Result<i16, hound::Error>>)
    ensures
        wav_sample_rate(*final(reader)) == wav_sample_rate(*old(reader)),
        wav_len(*final(reader)) == wav_len(*old(reader)),
        wav_pending(*old(reader)).len() == 0 ==> item is None && wav_pending(*final(reader))
            == wav_pending(*old(reader)),
        wav_pending(*old(reader)).len() > 0 ==> wav_pending(*final(reader)) == wav_pending(
            *old(reader),
        ).skip(1) && match wav_pending(*old(reader))[0] {
            Some(sample) => item == Some(Ok::<i16, hound::Error>(sample)),
            None => item matches Some(Err(_)),
        },
{
    reader.samples::<i16>().next()
}

/// The text of a `hound::Error`, as its `Display` gives it.
#[verifier::external_body]
fn error_text(error: &hound::Error) -> (text: String) {
    error.to_string()
}

/// How the text of a failed stream begins; the decoder's own message follows.
pub open spec fn read_failure_prefix() -> Seq<char> {
    "Error reading sample: "@
}

/// The text with which a header that names a sample rate of zero is refused.
pub open spec fn zero_rate_text() -> Seq<char> {
    "sample rate is zero"@
}

/// Whether `text` begins with the prefix of a failed read.
pub open spec fn is_read_failure(text: Seq<char>) -> bool {
    text.len() >= read_failure_prefix().len() && text.take(read_failure_prefix().len() as int)
        == read_failure_prefix()
}

/// What the driver of a file stream reports back.
#[derive(Clone, Copy, Debug, PartialEq, Eq)]
pub enum FileEvent {
    /// The sink took the frame; `now` is the time since the stream began, in
    /// nanoseconds.
    Delivered { now: u64 },
    /// The receiving end of the sink is gone.
    SinkClosed,
    /// The sleep that was asked for is over.
    Woke,
}

/// The number of samples at the head of `pending` that can be read before
/// `limit` is reached, the file ends, or a sample fails to decode.
pub open spec fn leading_samples(pending: Seq<Option<i16>>, limit: nat) -> nat
    decreases limit,
{
    if limit > 0 && pending.len() > 0 && pending[0] is Some {
        1 + leading_samples(pending.skip(1), (limit - 1) as nat)
    } else {
        0
    }
}

/// The samples of a run of items that all decoded.
pub open spec fn samples_of(items: Seq<Option<i16>>) -> Seq<i16> {
    items.map_values(|item: Option<i16>| item.unwrap())
}

/// A file source as a plain value.
pub struct WavFileState {
    /// Samples per second, from the header; never zero.
    pub sample_rate: u32,
    /// Number of samples in the file.
    pub length: u64,
    /// Playing time of the file: whole seconds, and nanoseconds beyond them.
    pub duration: (u64, u32),
    /// What is still to be read, in order; `None` stands for a sample that
    /// fails to decode.
    pub pending: Seq<Option<i16>>,
    /// Samples per frame of the current stream; zero before the first stream.
    pub chunk_size: usize,
    /// When the frame after the last delivered one is due, in nanoseconds
    /// since the stream began.
    pub due: u64,
    /// Length of the frame that was emitted last and not yet paced.
    pub last_len: usize,
}

impl WavFileState {
    /// Reads the next frame. A sample that fails to decode is consumed and
    /// fails the stream; no sample left ends it; else the frame is emitted.
    pub open spec fn advance(self) -> (WavFileState, Action<i16>) {
        let count = leading_samples(self.pending, self.chunk_size as nat);
        if count < self.chunk_size && count < self.pending.len() {
            (WavFileState { pending: self.pending.skip(count as int + 1), ..self }, Action::Fail)
        } else if count == 0 {
            (self, Action::Finish)
        } else {
            (
                WavFileState {
                    pending: self.pending.skip(count as int),
                    last_len: count as usize,
                    ..self
                },
                Action::Emit(samples_of(self.pending.take(count as int))),
            )
        }
    }

    /// Begins a stream: the clock starts at zero and the first frame is read.
    pub open spec fn start(self, chunk_size: usize) -> (WavFileState, Action<i16>) {
        WavFileState { chunk_size, due: 0, last_len: 0, ..self }.advance()
    }

    /// Continues a stream. A closed sink ends it at once. A delivered frame
    /// moves the due time on by the frame's playing time; if that time has
    /// not come, the stream sleeps until it has. Otherwise, and after a
    /// sleep, the next frame is read.
    pub open spec fn resume(self, event: FileEvent) -> (WavFileState, Action<i16>) {
        match event {
            FileEvent::SinkClosed => (self, Action::Finish),
            FileEvent::Woke => self.advance(),
            FileEvent::Delivered { now } => {
                let due = next_due(
                    self.due,
                    frame_nanos(self.last_len as nat, self.sample_rate as nat) as u64,
                );
                let paced = WavFileState { due, last_len: 0, ..self };
                if due > now {
                    (paced, Action::Sleep((due - now) as u64))
                } else {
                    paced.advance()
                }
            },
        }
    }

    /// The number of frames that the stream emits from here on, when every
    /// frame is delivered and every sleep is slept.
    pub open spec fn frames_left(self) -> nat
        decreases self.pending.len(),
    {
        let (next, action) = self.advance();
        if action is Emit && next.pending.len() < self.pending.len() {
            1 + next.frames_left()
        } else {
            0
        }
    }

    /// The source that the bytes of a file give: none where the header is
    /// rejected or names a sample rate of zero.
    pub open spec fn open(bytes: Seq<u8>) -> Option<WavFileState> {
        match wav_decode(bytes) {
            Some((rate, data)) => if rate > 0 {
                Some(
                    WavFileState {
                        sample_rate: rate,
                        length: data.len() as u64,
                        duration: playing_time(data.len(), rate as nat),
                        pending: data,
                        chunk_size: 0,
                        due: 0,
                        last_len: 0,
                    },
                )
            } else {
                None
            },
            None => None,
        }
    }
}

/// The count of readable samples is within the limit and the file.
pub proof fn lemma_leading_samples_bound(pending: Seq<Option<i16>>, limit: nat)
    ensures
        leading_samples(pending, limit) <= limit,
        leading_samples(pending, limit) <= pending.len(),
        forall|j: int| 0 <= j < leading_samples(pending, limit) ==> (#[trigger] pending[j]) is Some,
    decreases limit,
{
    if limit > 0 && pending.len() > 0 && pending[0] is Some {
        lemma_leading_samples_bound(pending.skip(1), (limit - 1) as nat);
        let rest = leading_samples(pending.skip(1), (limit - 1) as nat);
        assert forall|j: int| 0 <= j < 1 + rest implies (#[trigger] pending[j]) is Some by {
            if j > 0 {
                assert(pending[j] == pending.skip(1)[j - 1]);
            }
        }
    }
}

/// Where every sample decodes, a frame takes as many samples as the frame
/// size allows and the file still has.
proof fn lemma_leading_samples_of_sound_file(pending: Seq<Option<i16>>, limit: nat)
    requires
        forall|j: int| 0 <= j < pending.len() ==> (#[trigger] pending[j]) is Some,
    ensures
        leading_samples(pending, limit) == if limit <= pending.len() {
            limit
        } else {
            pending.len()
        },
    decreases limit,
{
    if limit > 0 && pending.len() > 0 {
        let rest = pending.skip(1);
        lemma_leading_samples_of_sound_file(rest, (limit - 1) as nat);
    }
}

/// A file whose samples all decode is streamed in as many frames as it takes
/// to hold its samples: its length divided by the frame size, rounded up.
pub proof fn lemma_frames_of_sound_file(state: WavFileState)
    requires
        state.chunk_size > 0,
        forall|j: int| 0 <= j < state.pending.len() ==> (#[trigger] state.pending[j]) is Some,
    ensures
        state.frames_left() == (state.pending.len() + state.chunk_size - 1) / (
        state.chunk_size as int),
    decreases state.pending.len(),
{
    let len = state.pending.len() as int;
    let chunk = state.chunk_size as int;
    lemma_leading_samples_of_sound_file(state.pending, state.chunk_size as nat);
    if len == 0 {
        vstd::arithmetic::div_mod::lemma_basic_div(chunk - 1, chunk);
    } else {
        let next = state.advance().0;
        lemma_frames_of_sound_file(next);
        if len <= chunk {
            vstd::arithmetic::div_mod::lemma_fundamental_div_mod_converse_div(
                len + chunk - 1,
                chunk,
                1,
                len - 1,
            );
            vstd::arithmetic::div_mod::lemma_basic_div(chunk - 1, chunk);
        } else {
            vstd::arithmetic::div_mod::lemma_div_plus_one(len - 1, chunk);
        }
    }
}

/// A frame shorter than the stream's frame size is the last one: the file
/// has ended with it, and the turn after it finishes the stream.
pub proof fn lemma_short_frame_is_last(state: WavFileState)
    requires
        state.advance().1 matches Action::Emit(frame) && frame.len() < state.chunk_size,
    ensures
        state.advance().0.pending.len() == 0,
        state.advance().0.advance() == (state.advance().0, Action::<i16>::Finish),
{
    lemma_leading_samples_bound(state.pending, state.chunk_size as nat);
}

/// The frames of a stream hold the samples of the file in their order, and
/// nothing else: an emitted frame and what is pending after it make up what
/// was pending before it.
pub proof fn lemma_frame_continues_file(state: WavFileState)
    requires
        state.advance().1 matches Action::Emit(_),
    ensures
        state.advance().1 matches Action::Emit(frame) && frame.map_values(
            |sample: i16| Some(sample),
        ) + state.advance().0.pending == state.pending,
{
    lemma_leading_samples_bound(state.pending, state.chunk_size as nat);
    let count = leading_samples(state.pending, state.chunk_size as nat);
    let frame = samples_of(state.pending.take(count as int));
    assert(frame.map_values(|sample: i16| Some(sample)) + state.pending.skip(count as int)
        =~= state.pending);
}

/// Reading on after `done` readable samples finds the rest of them.
proof fn lemma_leading_samples_split(pending: Seq<Option<i16>>, limit: nat, done: nat)
    requires
        done <= limit,
        done <= pending.len(),
        forall|j: int| 0 <= j < done ==> (#[trigger] pending[j]) is Some,
    ensures
        leading_samples(pending, limit) == done + leading_samples(
            pending.skip(done as int),
            (limit - done) as nat,
        ),
    decreases done,
{
    if done == 0 {
        assert(pending.skip(0) =~= pending);
    } else {
        let rest = pending.skip(1);
        lemma_leading_samples_split(rest, (limit - 1) as nat, (done - 1) as nat);
        assert(rest.skip(done - 1) =~= pending.skip(done as int));
    }
}

/// Reads up to `limit` samples into a frame. The read of a sample that fails
/// to decode consumes it and fails the frame.
fn read_frame(reader: &mut WavReader<Cursor<Vec<u8>>>, limit: usize) -> (result: Result<
    Vec<i16>,
    String,
>)
    ensures
        wav_sample_rate(*final(reader)) == wav_sample_rate(*old(reader)),
        wav_len(*final(reader)) == wav_len(*old(reader)),
        ({
            let pending = wav_pending(*old(reader));
            let count = leading_samples(pending, limit as nat);
            if count < limit && count < pending.len() {
                &&& result matches Err(text)
                &&& is_read_failure(text@)
                &&& wav_pending(*final(reader)) == pending.skip(count as int + 1)
            } else {
                &&& result matches Ok(frame)
                &&& frame@ == samples_of(pending.take(count as int))
                &&& wav_pending(*final(reader)) == pending.skip(count as int)
            }
        }),
{
    let ghost pending = wav_pending(*reader);
    let mut frame: Vec<i16> = Vec::new();
    let mut ended = false;
    while frame.len() < limit && !ended
        invariant
            wav_sample_rate(*reader) == wav_sample_rate(*old(reader)),
            wav_len(*reader) == wav_len(*old(reader)),
            pending == wav_pending(*old(reader)),
            frame@.len() <= limit,
            frame@.len() <= pending.len(),
            forall|j: int| 0 <= j < frame@.len() ==> (#[trigger] pending[j]) == Some(frame@[j]),
            wav_pending(*reader) == pending.skip(frame@.len() as int),
            ended ==> frame@.len() == pending.len(),
        decreases limit - frame@.len() + if ended { 0int } else { 1int },
    {
        let ghost done = frame@.len();
        match next_sample(reader) {
            Some(Ok(sample)) => {
                frame.push(sample);
            },
            Some(Err(error)) => {
                proof {
                    lemma_leading_samples_split(pending, limit as nat, done);
                }
                let mut text = "Error reading sample: ".to_owned();
                text.append(error_text(&error).as_str());
                proof {
                    assert(text@.take(read_failure_prefix().len() as int)
                        =~= read_failure_prefix());
                }
                return Err(text);
            },
            None => {
                ended = true;
            },
        }
    }
    proof {
        let done = frame@.len();
        lemma_leading_samples_split(pending, limit as nat, done);
    }
    Ok(frame)
}

/// A WAV file as a source of paced frames.
pub struct WavFileSource {
    reader: WavReader<Cursor<Vec<u8>>>,
    sample_rate: u32,
    duration: Duration,
    length: u64,
    chunk_size: usize,
    due: u64,
    last_len: usize,
}

impl View for WavFileSource {
    type V = WavFileState;

    closed spec fn view(&self) -> WavFileState {
        WavFileState {
            sample_rate: self.sample_rate,
            length: self.length,
            duration: duration_parts(self.duration),
            pending: wav_pending(self.reader),
            chunk_size: self.chunk_size,
            due: self.due,
            last_len: self.last_len,
        }
    }
}

impl WavFileSource {
    /// Opens the source on the bytes of a WAV file. It fails, with the
    /// decoder's message, where the decoder rejects the header, and where the
    /// header names a sample rate of zero.
    pub fn new(bytes: Vec<u8>) -> (opened: Result<Self, String>)
        ensures
            match WavFileState::open(bytes@) {
                Some(state) => opened matches Ok(source) && source@ == state && source.valid(),
                None => opened is Err,
            },
            (wav_decode(bytes@) matches Some((rate, _)) && rate == 0) ==> (opened matches Err(
                text,
            ) && text@ == zero_rate_text()),
    {
        let reader = match open_reader(bytes) {
            Ok(reader) => reader,
            Err(error) => {
                return Err(error_text(&error));
            },
        };
        let sample_rate = reader_sample_rate(&reader);
        if sample_rate == 0 {
            return Err("sample rate is zero".to_owned());
        }
        let length = reader_len(&reader) as u64;
        let duration = file_duration(length, sample_rate);
        Ok(WavFileSource { reader, sample_rate, duration, length, chunk_size: 0, due: 0, last_len: 0 })
    }

    /// Reads the next frame of the stream and says what to do with it.
    fn advance(&mut self) -> (action: StreamAction<i16>)
        ensures
            (final(self)@, action@) == old(self)@.advance(),
            action matches StreamAction::Fail(text) ==> is_read_failure(text@),
    {
        proof {
            lemma_leading_samples_bound(self@.pending, self.chunk_size as nat);
        }
        match read_frame(&mut self.reader, self.chunk_size) {
            Err(text) => StreamAction::Fail(text),
            Ok(frame) => {
                if frame.len() == 0 {
                    proof {
                        assert(wav_pending(old(self).reader).skip(0) =~= wav_pending(
                            old(self).reader,
                        ));
                    }
                    StreamAction::Finish
                } else {
                    self.last_len = frame.len();
                    StreamAction::Emit(frame)
                }
            },
        }
    }
}

impl AudioSource for WavFileSource {
    type Sample = i16;

    type Event = FileEvent;

    open spec fn valid(&self) -> bool {
        self@.sample_rate > 0
    }

    open spec fn sample_rate(&self) -> u32 {
        self@.sample_rate
    }

    open spec fn duration(&self) -> (u64, u32) {
        self@.duration
    }

    open spec fn length(&self) -> u64 {
        self@.length
    }

    open spec fn is_sink_closed(event: FileEvent) -> bool {
        event is SinkClosed
    }

    open spec fn starts(pre: &Self, chunk_size: usize, post: &Self, action: Action<i16>) -> bool {
        (post@, action) == pre@.start(chunk_size)
    }

    open spec fn resumes(pre: &Self, event: FileEvent, post: &Self, action: Action<i16>) -> bool {
        (post@, action) == pre@.resume(event)
    }

    fn get_sample_rate(&self) -> (rate: u32) {
        self.sample_rate
    }

    fn get_duration(&self) -> (duration: Duration) {
        self.duration
    }

    fn get_length(&self) -> (length: u64) {
        self.length
    }

    fn start_streaming(&mut self, chunk_size: usize) -> (action: StreamAction<i16>)
        ensures
            action matches StreamAction::Fail(text) ==> is_read_failure(text@),
    {
        self.chunk_size = chunk_size;
        self.due = 0;
        self.last_len = 0;
        proof {
            lemma_leading_samples_bound(self@.pending, chunk_size as nat);
        }
        self.advance()
    }

    fn resume(&mut self, event: FileEvent) -> (action: StreamAction<i16>)
        ensures
            action matches StreamAction::Fail(text) ==> is_read_failure(text@),
    {
        proof {
            lemma_leading_samples_bound(self@.pending, self@.chunk_size as nat);
        }
        match event {
            FileEvent::SinkClosed => StreamAction::Finish,
            FileEvent::Woke => self.advance(),
            FileEvent::Delivered { now } => {
                let nanos = frame_duration_nanos(self.last_len, self.sample_rate);
                self.due = self.due.saturating_add(nanos);
                self.last_len = 0;
                if self.due > now {
                    StreamAction::Sleep(self.due - now)
                } else {
                    self.advance()
                }
            },
        }
    }
}

} // verus!
