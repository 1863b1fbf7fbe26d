use fourier::audio::microphone::{CaptureEvent, MicrophoneSource};
use fourier::audio::pacing::{file_duration, frame_duration_nanos};
use fourier::audio::source::{AudioSource, StreamAction};
use fourier::audio::streamer::AudioStreamer;
use fourier::audio::wav::{FileEvent, WavFileSource};
use fourier::fft::bit_reversal::is_power_of_two;
use std::io::Cursor;
use std::sync::mpsc;
use std::time::{Duration, Instant};

/// A mono 16-bit PCM file with the given samples.
fn wav_bytes(sample_rate: u32, samples: &[i16]) -> Vec<u8> {
    let spec = hound::WavSpec {
        channels: 1,
        sample_rate,
        bits_per_sample: 16,
        sample_format: hound::SampleFormat::Int,
    };
    let mut bytes = Vec::new();
    {
        let mut writer = hound::WavWriter::new(Cursor::new(&mut bytes), spec).unwrap();
        for sample in samples {
            writer.write_sample(*sample).unwrap();
        }
        writer.finalize().unwrap();
    }
    bytes
}

/// A file header written by hand: PCM, mono, with the given rate, container
/// and data length in bytes, followed by `data`.
fn raw_wav(sample_rate: u32, bytes_per_sample: u16, data_len: u32, data: &[u8]) -> Vec<u8> {
    let mut bytes = Vec::new();
    bytes.extend_from_slice(b"RIFF");
    bytes.extend_from_slice(&(36 + data_len).to_le_bytes());
    bytes.extend_from_slice(b"WAVE");
    bytes.extend_from_slice(b"fmt ");
    bytes.extend_from_slice(&16u32.to_le_bytes());
    bytes.extend_from_slice(&1u16.to_le_bytes());
    bytes.extend_from_slice(&1u16.to_le_bytes());
    bytes.extend_from_slice(&sample_rate.to_le_bytes());
    bytes.extend_from_slice(&(sample_rate.wrapping_mul(bytes_per_sample as u32)).to_le_bytes());
    bytes.extend_from_slice(&bytes_per_sample.to_le_bytes());
    bytes.extend_from_slice(&(bytes_per_sample * 8).to_le_bytes());
    bytes.extend_from_slice(b"data");
    bytes.extend_from_slice(&data_len.to_le_bytes());
    bytes.extend_from_slice(data);
    bytes
}

struct Run {
    frames: Vec<Vec<i16>>,
    slept: u64,
    failure: Option<String>,
}

/// Drives a file source on a clock that moves only while the driver sleeps.
fn run_on_still_clock(source: &mut WavFileSource, chunk_size: usize) -> Run {
    let mut run = Run { frames: Vec::new(), slept: 0, failure: None };
    let mut action = source.start_streaming(chunk_size);
    loop {
        action = match action {
            StreamAction::Emit(frame) => {
                run.frames.push(frame);
                source.resume(FileEvent::Delivered { now: run.slept })
            }
            StreamAction::Sleep(nanos) => {
                run.slept += nanos;
                source.resume(FileEvent::Woke)
            }
            StreamAction::Listen => panic!("a file source does not listen"),
            StreamAction::Finish => return run,
            StreamAction::Fail(text) => {
                run.failure = Some(text);
                return run;
            }
        };
    }
}

#[test]
fn file_source_reports_rate_length_and_duration() {
    let samples = vec![0i16; 8000];
    let source = WavFileSource::new(wav_bytes(8000, &samples)).unwrap();
    assert_eq!(source.get_sample_rate(), 8000);
    assert_eq!(source.get_length(), 8000);
    assert_eq!(source.get_duration(), Duration::from_secs(1));
}

#[test]
fn file_duration_keeps_the_fraction_of_a_second() {
    let samples = vec![0i16; 12000];
    let source = WavFileSource::new(wav_bytes(8000, &samples)).unwrap();
    assert_eq!(source.get_duration(), Duration::from_millis(1500));
    let source = WavFileSource::new(wav_bytes(44100, &[1])).unwrap();
    assert_eq!(source.get_duration(), Duration::from_nanos(22675));
    assert_eq!(file_duration(7, 3), Duration::new(2, 333_333_333));
    assert_eq!(file_duration(0, 48000), Duration::new(0, 0));
    assert_eq!(
        file_duration(u64::MAX, 1),
        Duration::new(u64::MAX, 0)
    );
    assert_eq!(
        file_duration(u64::MAX, u32::MAX),
        Duration::new(4294967297, 0)
    );
    assert_eq!(
        file_duration(u64::MAX, 1000),
        Duration::new(18446744073709551, 615_000_000)
    );
}

#[test]
fn frame_duration_in_nanoseconds() {
    assert_eq!(frame_duration_nanos(800, 8000), 100_000_000);
    assert_eq!(frame_duration_nanos(256, 44100), 5_804_988);
    assert_eq!(frame_duration_nanos(1, 3), 333_333_333);
    assert_eq!(frame_duration_nanos(0, 8000), 0);
    assert_eq!(frame_duration_nanos(usize::MAX, 1), u64::MAX);
}

#[test]
fn one_second_file_gives_ten_paced_frames() {
    let samples: Vec<i16> = (0..8000).map(|n| (n % 100) as i16).collect();
    let mut source = WavFileSource::new(wav_bytes(8000, &samples)).unwrap();
    let run = run_on_still_clock(&mut source, 800);
    assert_eq!(run.frames.len(), 10);
    assert!(run.frames.iter().all(|frame| frame.len() == 800));
    assert_eq!(run.frames.concat(), samples);
    assert_eq!(run.slept, 1_000_000_000);
    assert_eq!(run.failure, None);
}

#[test]
fn file_source_paces_on_the_wall_clock() {
    let samples = vec![0i16; 8000];
    let mut source = WavFileSource::new(wav_bytes(8000, &samples)).unwrap();
    let (sender, receiver) = mpsc::channel::<Vec<i16>>();
    let (_idle, timer) = mpsc::channel::<()>();
    let begin = Instant::now();
    let mut action = source.start_streaming(800);
    loop {
        action = match action {
            StreamAction::Emit(frame) => {
                if sender.send(frame).is_ok() {
                    let now = begin.elapsed().as_nanos() as u64;
                    source.resume(FileEvent::Delivered { now })
                } else {
                    source.resume(FileEvent::SinkClosed)
                }
            }
            StreamAction::Sleep(nanos) => {
                assert!(timer.recv_timeout(Duration::from_nanos(nanos)).is_err());
                source.resume(FileEvent::Woke)
            }
            StreamAction::Finish => break,
            other => panic!("unexpected {:?}", other),
        };
    }
    let elapsed = begin.elapsed();
    assert_eq!(receiver.try_iter().count(), 10);
    assert!(elapsed >= Duration::from_millis(900));
}

#[test]
fn short_last_frame_is_emitted_unpadded() {
    let samples: Vec<i16> = (1..=10).collect();
    let mut source = WavFileSource::new(wav_bytes(1000, &samples)).unwrap();
    let run = run_on_still_clock(&mut source, 4);
    assert_eq!(run.frames, vec![vec![1, 2, 3, 4], vec![5, 6, 7, 8], vec![9, 10]]);
    assert_eq!(run.slept, 10_000_000);
    assert_eq!(run.failure, None);
}

#[test]
fn file_of_whole_frames_ends_after_the_last() {
    let samples: Vec<i16> = (1..=8).collect();
    let mut source = WavFileSource::new(wav_bytes(1000, &samples)).unwrap();
    assert_eq!(source.start_streaming(4), StreamAction::Emit(vec![1, 2, 3, 4]));
    assert_eq!(
        source.resume(FileEvent::Delivered { now: 0 }),
        StreamAction::Sleep(4_000_000)
    );
    assert_eq!(source.resume(FileEvent::Woke), StreamAction::Emit(vec![5, 6, 7, 8]));
    assert_eq!(
        source.resume(FileEvent::Delivered { now: 4_000_000 }),
        StreamAction::Sleep(4_000_000)
    );
    assert_eq!(source.resume(FileEvent::Woke), StreamAction::Finish);
    assert_eq!(source.resume(FileEvent::Woke), StreamAction::Finish);
}

#[test]
fn empty_file_finishes_at_once() {
    let mut source = WavFileSource::new(wav_bytes(8000, &[])).unwrap();
    assert_eq!(source.get_length(), 0);
    assert_eq!(source.get_duration(), Duration::new(0, 0));
    assert_eq!(source.start_streaming(64), StreamAction::Finish);
}

#[test]
fn closed_sink_ends_the_stream_in_good_order() {
    let samples = vec![3i16; 100];
    let mut source = WavFileSource::new(wav_bytes(8000, &samples)).unwrap();
    assert_eq!(source.start_streaming(16), StreamAction::Emit(vec![3; 16]));
    assert_eq!(source.resume(FileEvent::SinkClosed), StreamAction::Finish);
}

#[test]
fn dropped_receiver_stops_a_running_stream() {
    let samples = vec![0i16; 8000];
    let mut source = WavFileSource::new(wav_bytes(8000, &samples)).unwrap();
    let (sender, receiver) = mpsc::channel::<Vec<i16>>();
    let mut receiver = Some(receiver);
    let mut sent = 0;
    let mut slept = 0u64;
    let mut action = source.start_streaming(800);
    let finished = loop {
        action = match action {
            StreamAction::Emit(frame) => {
                if sender.send(frame).is_ok() {
                    sent += 1;
                    if sent == 3 {
                        receiver = None;
                    }
                    source.resume(FileEvent::Delivered { now: slept })
                } else {
                    source.resume(FileEvent::SinkClosed)
                }
            }
            StreamAction::Sleep(nanos) => {
                slept += nanos;
                source.resume(FileEvent::Woke)
            }
            StreamAction::Finish => break true,
            _ => break false,
        };
    };
    assert!(finished);
    assert!(receiver.is_none());
    assert_eq!(sent, 3);
    assert_eq!(slept, 300_000_000);
}

#[test]
fn late_driver_is_not_put_to_sleep() {
    let samples: Vec<i16> = (0..12).collect();
    let mut source = WavFileSource::new(wav_bytes(1000, &samples)).unwrap();
    assert_eq!(source.start_streaming(4), StreamAction::Emit(vec![0, 1, 2, 3]));
    assert_eq!(
        source.resume(FileEvent::Delivered { now: 4_000_000 }),
        StreamAction::Emit(vec![4, 5, 6, 7])
    );
    assert_eq!(
        source.resume(FileEvent::Delivered { now: 9_000_000 }),
        StreamAction::Emit(vec![8, 9, 10, 11])
    );
}

#[test]
fn due_time_accumulates_without_drift() {
    let samples = vec![0i16; 2400];
    let mut source = WavFileSource::new(wav_bytes(8000, &samples)).unwrap();
    assert!(matches!(source.start_streaming(800), StreamAction::Emit(_)));
    assert!(matches!(
        source.resume(FileEvent::Delivered { now: 150_000_000 }),
        StreamAction::Emit(_)
    ));
    assert_eq!(
        source.resume(FileEvent::Delivered { now: 160_000_000 }),
        StreamAction::Sleep(40_000_000)
    );
    assert!(matches!(source.resume(FileEvent::Woke), StreamAction::Emit(_)));
    assert_eq!(
        source.resume(FileEvent::Delivered { now: 210_000_000 }),
        StreamAction::Sleep(90_000_000)
    );
}

#[test]
fn streaming_again_goes_on_where_the_file_stands() {
    let samples: Vec<i16> = (0..6).collect();
    let mut source = WavFileSource::new(wav_bytes(1000, &samples)).unwrap();
    assert_eq!(source.start_streaming(2), StreamAction::Emit(vec![0, 1]));
    assert_eq!(source.resume(FileEvent::SinkClosed), StreamAction::Finish);
    assert_eq!(source.start_streaming(3), StreamAction::Emit(vec![2, 3, 4]));
    assert_eq!(
        source.resume(FileEvent::Delivered { now: 0 }),
        StreamAction::Sleep(3_000_000)
    );
    assert_eq!(source.get_length(), 6);
}

#[test]
fn malformed_header_fails_the_construction() {
    let failure = WavFileSource::new(b"not a wave file at all".to_vec()).err().unwrap();
    assert_eq!(failure, "Ill-formed WAVE file: no RIFF tag found");
    assert!(WavFileSource::new(Vec::new()).is_err());
    let mut cut = wav_bytes(8000, &[1, 2, 3]);
    cut.truncate(20);
    assert!(WavFileSource::new(cut).is_err());
}

#[test]
fn sample_rate_of_zero_fails_the_construction() {
    let bytes = raw_wav(0, 2, 4, &[1, 0, 2, 0]);
    assert_eq!(WavFileSource::new(bytes).err().unwrap(), "sample rate is zero");
    let bytes = raw_wav(1, 2, 4, &[1, 0, 2, 0]);
    let source = WavFileSource::new(bytes).unwrap();
    assert_eq!(source.get_sample_rate(), 1);
    assert_eq!(source.get_duration(), Duration::from_secs(2));
}

#[test]
fn missing_samples_fail_the_stream_after_the_whole_frames() {
    let bytes = raw_wav(1000, 2, 12, &[1, 0, 2, 0, 3, 0, 4, 0, 5, 0]);
    let mut source = WavFileSource::new(bytes).unwrap();
    assert_eq!(source.get_length(), 6);
    let run = run_on_still_clock(&mut source, 4);
    assert_eq!(run.frames, vec![vec![1, 2, 3, 4]]);
    let failure = run.failure.unwrap();
    assert!(failure.starts_with("Error reading sample: "));
    assert!(failure.len() > "Error reading sample: ".len());
}

#[test]
fn samples_wider_than_sixteen_bits_fail_the_stream() {
    let bytes = raw_wav(1000, 4, 8, &[0; 8]);
    let mut source = WavFileSource::new(bytes).unwrap();
    assert_eq!(source.get_length(), 2);
    assert_eq!(
        source.start_streaming(2),
        StreamAction::Fail(
            "Error reading sample: The sample has more bits than the destination type."
                .to_string()
        )
    );
    assert!(matches!(source.resume(FileEvent::Woke), StreamAction::Fail(_)));
    assert_eq!(source.resume(FileEvent::Woke), StreamAction::Finish);
}

#[test]
fn microphone_cuts_frames_in_order_of_arrival() {
    let mut source: MicrophoneSource<i32> = MicrophoneSource::new(44100);
    assert_eq!(source.start_streaming(4), StreamAction::Listen);
    assert_eq!(
        source.resume(CaptureEvent::Captured(vec![1, 2, 3])),
        StreamAction::Listen
    );
    assert_eq!(
        source.resume(CaptureEvent::Captured(vec![4, 5, 6, 7, 8, 9])),
        StreamAction::Emit(vec![1, 2, 3, 4])
    );
    assert_eq!(
        source.resume(CaptureEvent::Delivered),
        StreamAction::Emit(vec![5, 6, 7, 8])
    );
    assert_eq!(source.resume(CaptureEvent::Delivered), StreamAction::Listen);
    assert_eq!(
        source.resume(CaptureEvent::Captured(vec![10, 11, 12])),
        StreamAction::Emit(vec![9, 10, 11, 12])
    );
    assert_eq!(source.resume(CaptureEvent::Delivered), StreamAction::Listen);
}

#[test]
fn microphone_takes_samples_of_any_kind() {
    let mut source: MicrophoneSource<f32> = MicrophoneSource::new(48000);
    assert_eq!(source.start_streaming(2), StreamAction::Listen);
    assert_eq!(
        source.resume(CaptureEvent::Captured(vec![0.5, -0.25, 1.0])),
        StreamAction::Emit(vec![0.5, -0.25])
    );
    assert_eq!(source.resume(CaptureEvent::Captured(Vec::new())), StreamAction::Listen);
}

#[test]
fn microphone_finishes_when_the_sink_is_closed() {
    let mut source: MicrophoneSource<u8> = MicrophoneSource::new(44100);
    assert_eq!(source.start_streaming(2), StreamAction::Listen);
    assert_eq!(
        source.resume(CaptureEvent::Captured(vec![1, 2, 3, 4, 5])),
        StreamAction::Emit(vec![1, 2])
    );
    assert_eq!(source.resume(CaptureEvent::SinkClosed), StreamAction::Finish);
}

#[test]
fn microphone_is_unbounded() {
    let source: MicrophoneSource<u8> = MicrophoneSource::new(44100);
    assert_eq!(source.get_sample_rate(), 44100);
    assert_eq!(source.get_length(), u64::MAX);
    assert_eq!(source.get_duration(), Duration::from_secs(u64::MAX));
}

#[test]
fn microphone_starts_each_stream_with_an_empty_buffer() {
    let mut source: MicrophoneSource<u8> = MicrophoneSource::new(44100);
    assert_eq!(source.start_streaming(4), StreamAction::Listen);
    assert_eq!(
        source.resume(CaptureEvent::Captured(vec![1, 2, 3])),
        StreamAction::Listen
    );
    assert_eq!(source.start_streaming(2), StreamAction::Listen);
    assert_eq!(
        source.resume(CaptureEvent::Captured(vec![7, 8])),
        StreamAction::Emit(vec![7, 8])
    );
}

#[test]
fn microphone_that_is_not_streaming_finishes() {
    let mut source: MicrophoneSource<u8> = MicrophoneSource::new(44100);
    assert_eq!(
        source.resume(CaptureEvent::Captured(vec![1, 2, 3])),
        StreamAction::Finish
    );
    assert_eq!(source.resume(CaptureEvent::Delivered), StreamAction::Finish);
}

#[test]
fn frame_size_must_be_a_power_of_two() {
    assert!(!is_power_of_two(100));
    assert!(!is_power_of_two(0));
    assert!(is_power_of_two(128));
}

#[test]
fn pipeline_streams_at_its_frame_size() {
    let samples: Vec<i16> = (0..300).collect();
    let source = WavFileSource::new(wav_bytes(8000, &samples)).unwrap();
    assert!(is_power_of_two(128));
    let mut streamer = AudioStreamer::new(source, 128);
    let first: Vec<i16> = (0..128).collect();
    assert_eq!(streamer.run(), StreamAction::Emit(first));
    assert_eq!(
        streamer.resume(FileEvent::Delivered { now: 0 }),
        StreamAction::Sleep(16_000_000)
    );
    let second: Vec<i16> = (128..256).collect();
    assert_eq!(streamer.resume(FileEvent::Woke), StreamAction::Emit(second));
    assert_eq!(streamer.resume(FileEvent::SinkClosed), StreamAction::Finish);
}

#[test]
fn pipeline_drives_a_microphone() {
    let source: MicrophoneSource<i16> = MicrophoneSource::new(16000);
    let mut streamer = AudioStreamer::new(source, 2);
    assert_eq!(streamer.run(), StreamAction::Listen);
    assert_eq!(
        streamer.resume(CaptureEvent::Captured(vec![5, 6, 7])),
        StreamAction::Emit(vec![5, 6])
    );
    assert_eq!(streamer.resume(CaptureEvent::Delivered), StreamAction::Listen);
    assert_eq!(streamer.resume(CaptureEvent::SinkClosed), StreamAction::Finish);
}
