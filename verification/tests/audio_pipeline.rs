use sendspin::audio::decode::{decode_chunk, PcmDecoder, PcmEndian};
use sendspin::audio::output::{
    OutputCursor, OutputGuard, OutputStep, CHANNEL_CAPACITY, FULL_SCALE,
};
use sendspin::audio::{duration_micros, AudioBuffer, AudioFormat, Codec, Sample};
use sendspin::error::Error;
use sendspin::scheduler::AudioScheduler;

fn format(sample_rate: u32, channels: u8, bit_depth: u8) -> AudioFormat {
    AudioFormat { codec: Codec::Pcm, sample_rate, channels, bit_depth }
}

/// A stereo buffer at 48 kHz that lasts `millis` milliseconds.
fn buffer(timestamp: i64, play_at: i64, millis: usize) -> AudioBuffer {
    AudioBuffer {
        timestamp,
        play_at,
        samples: vec![Sample(0); 2 * 48 * millis],
        format: format(48_000, 2, 16),
    }
}

#[test]
fn decodes_16_bit_little_endian() {
    let decoder = PcmDecoder::new(16);
    assert_eq!(decoder.bit_depth(), 16);
    assert_eq!(decoder.endian(), PcmEndian::Little);
    let samples = decoder
        .decode(&[0x00, 0x00, 0x01, 0x00, 0xFF, 0x7F, 0x00, 0x80, 0xFF, 0xFF, 0x34, 0x12])
        .unwrap();
    assert_eq!(
        samples,
        vec![Sample(0), Sample(1), Sample(32767), Sample(-32768), Sample(-1), Sample(0x1234)]
    );
}

#[test]
fn decodes_24_bit_little_endian() {
    let decoder = PcmDecoder::new(24);
    let samples = decoder
        .decode(&[
            0x00, 0x00, 0x00, 0x01, 0x00, 0x00, 0xFF, 0xFF, 0x7F, 0x00, 0x00, 0x80, 0xFF, 0xFF,
            0xFF, 0x56, 0x34, 0x12,
        ])
        .unwrap();
    assert_eq!(
        samples,
        vec![
            Sample(0),
            Sample(1),
            Sample(8_388_607),
            Sample(-8_388_608),
            Sample(-1),
            Sample(0x123456)
        ]
    );
}

#[test]
fn decodes_big_endian_only_when_told() {
    let bytes = [0x12, 0x34, 0x80, 0x00];
    let big = PcmDecoder::with_endian(16, PcmEndian::Big);
    assert_eq!(big.endian(), PcmEndian::Big);
    assert_eq!(big.decode(&bytes).unwrap(), vec![Sample(0x1234), Sample(-32768)]);
    let little = PcmDecoder::with_endian(16, PcmEndian::Little);
    assert_eq!(little.decode(&bytes).unwrap(), vec![Sample(0x3412), Sample(0x0080)]);
    let big24 = PcmDecoder::with_endian(24, PcmEndian::Big);
    assert_eq!(
        big24.decode(&[0x12, 0x34, 0x56, 0xFF, 0xFF, 0xFE]).unwrap(),
        vec![Sample(0x123456), Sample(-2)]
    );
}

#[test]
fn sample_count_is_bytes_over_width() {
    for n in 0..40usize {
        let bytes = vec![0xA5u8; n];
        let r16 = PcmDecoder::new(16).decode(&bytes);
        if n % 2 == 0 {
            assert_eq!(r16.unwrap().len(), n / 2);
        } else {
            assert_eq!(r16.unwrap_err(), Error::PartialFrame { len: n, frame_size: 2 });
        }
        let r24 = PcmDecoder::new(24).decode(&bytes);
        if n % 3 == 0 {
            assert_eq!(r24.unwrap().len(), n / 3);
        } else {
            assert_eq!(r24.unwrap_err(), Error::PartialFrame { len: n, frame_size: 3 });
        }
    }
}

#[test]
fn unsupported_bit_depth_is_refused() {
    assert_eq!(
        PcmDecoder::new(8).decode(&[1, 2, 3, 4]).unwrap_err(),
        Error::UnsupportedBitDepth { bit_depth: 8 }
    );
    assert_eq!(
        PcmDecoder::new(32).decode(&[]).unwrap_err(),
        Error::UnsupportedBitDepth { bit_depth: 32 }
    );
    assert_eq!(
        decode_chunk(&[1, 2, 3, 4], &format(48_000, 2, 32)).unwrap_err(),
        Error::UnsupportedBitDepth { bit_depth: 32 }
    );
}

#[test]
fn chunk_must_hold_whole_frames() {
    let stereo16 = format(48_000, 2, 16);
    assert_eq!(stereo16.frame_size(), 4);
    assert!(stereo16.is_supported());
    // six bytes are three samples, but one and a half frames
    assert_eq!(
        decode_chunk(&[0, 0, 1, 0, 2, 0], &stereo16).unwrap_err(),
        Error::PartialFrame { len: 6, frame_size: 4 }
    );
    assert_eq!(
        decode_chunk(&[0, 0, 1, 0, 2, 0, 3, 0], &stereo16).unwrap(),
        vec![Sample(0), Sample(1), Sample(2), Sample(3)]
    );
    let stereo24 = format(44_100, 2, 24);
    assert_eq!(stereo24.frame_size(), 6);
    assert_eq!(decode_chunk(&[0; 12], &stereo24).unwrap().len(), 4);
    assert_eq!(
        decode_chunk(&[0; 9], &stereo24).unwrap_err(),
        Error::PartialFrame { len: 9, frame_size: 6 }
    );
    assert_eq!(decode_chunk(&[], &stereo24).unwrap(), vec![]);
}

#[test]
fn format_without_channels_or_rate_is_refused() {
    assert!(!format(48_000, 0, 16).is_supported());
    assert!(!format(0, 2, 16).is_supported());
    assert!(!format(48_000, 2, 20).is_supported());
    assert_eq!(
        decode_chunk(&[0, 0], &format(48_000, 0, 16)).unwrap_err(),
        Error::UnsupportedFormat
    );
    assert_eq!(
        decode_chunk(&[0, 0], &format(0, 1, 16)).unwrap_err(),
        Error::UnsupportedFormat
    );
}

#[test]
fn duration_is_frames_times_a_million_over_rate() {
    let stereo = format(48_000, 2, 16);
    // 960 frames at 48 kHz are 20 ms
    assert_eq!(duration_micros(1920, &stereo), 20_000);
    assert_eq!(duration_micros(0, &stereo), 0);
    // a lone sample of a stereo stream is no frame
    assert_eq!(duration_micros(1, &stereo), 0);
    assert_eq!(duration_micros(2, &stereo), 20);
    // rounded down: 1 frame at 44.1 kHz is 22.67 microseconds
    assert_eq!(duration_micros(1, &format(44_100, 1, 16)), 22);
    assert_eq!(buffer(0, 0, 100).duration_micros(), 100_000);
    assert_eq!(duration_micros(usize::MAX, &format(1, 1, 16)), u64::MAX);
}

#[test]
fn scheduler_releases_in_deadline_order() {
    let t: i64 = 1_000_000;
    let mut scheduler = AudioScheduler::new();
    assert!(scheduler.is_empty());
    assert!(scheduler.schedule(buffer(1, t + 300_000, 100)));
    assert!(scheduler.schedule(buffer(2, t + 100_000, 100)));
    assert!(scheduler.schedule(buffer(3, t + 200_000, 100)));
    assert_eq!(scheduler.len(), 3);
    assert_eq!(scheduler.next_deadline(), Some(t + 100_000));

    assert!(scheduler.next_ready(t + 50_000).is_none());
    assert_eq!(scheduler.len(), 3);

    let first = scheduler.next_ready(t + 150_000).unwrap();
    assert_eq!(first.play_at, t + 100_000);
    assert_eq!(first.timestamp, 2);
    assert!(scheduler.next_ready(t + 150_000).is_none());

    let second = scheduler.next_ready(t + 250_000).unwrap();
    assert_eq!(second.play_at, t + 200_000);
    assert_eq!(second.timestamp, 3);

    let third = scheduler.next_ready(t + 350_000).unwrap();
    assert_eq!(third.play_at, t + 300_000);
    assert_eq!(third.timestamp, 1);

    assert!(scheduler.is_empty());
    assert!(scheduler.next_ready(t + 450_000).is_none());
    assert_eq!(scheduler.next_deadline(), None);
}

#[test]
fn scheduler_breaks_ties_by_server_timestamp() {
    let mut scheduler = AudioScheduler::new();
    assert!(scheduler.schedule(buffer(30, 500, 100)));
    assert!(scheduler.schedule(buffer(10, 500, 100)));
    assert!(scheduler.schedule(buffer(20, 500, 100)));
    assert_eq!(scheduler.next_ready(500).unwrap().timestamp, 10);
    assert_eq!(scheduler.next_ready(500).unwrap().timestamp, 20);
    assert_eq!(scheduler.next_ready(500).unwrap().timestamp, 30);
}

#[test]
fn scheduler_refuses_a_second_buffer_with_one_timestamp() {
    let mut scheduler = AudioScheduler::new();
    assert!(scheduler.schedule(buffer(7, 100, 20)));
    assert!(scheduler.contains_timestamp(7));
    assert!(!scheduler.contains_timestamp(8));
    assert!(!scheduler.schedule(buffer(7, 900, 20)));
    assert_eq!(scheduler.len(), 1);
    assert_eq!(scheduler.next_deadline(), Some(100));
    // once it has left, the timestamp is free again
    assert!(scheduler.next_ready(100).is_some());
    assert!(scheduler.schedule(buffer(7, 900, 20)));
}

#[test]
fn scheduler_refuses_a_buffer_it_cannot_time() {
    let mut scheduler = AudioScheduler::new();
    let mut bad = buffer(1, 100, 20);
    bad.format = format(48_000, 0, 16);
    assert!(!scheduler.schedule(bad));
    let mut worse = buffer(2, 100, 20);
    worse.format = format(0, 2, 16);
    assert!(!scheduler.schedule(worse));
    assert!(scheduler.is_empty());
}

#[test]
fn late_buffer_is_released_at_once() {
    let mut scheduler = AudioScheduler::new();
    assert!(scheduler.schedule(buffer(1, 1_000, 20)));
    // late by exactly its own length: still played
    let released = scheduler.next_ready(21_000).unwrap();
    assert_eq!(released.timestamp, 1);
}

#[test]
fn buffer_later_than_its_length_is_dropped() {
    let mut scheduler = AudioScheduler::new();
    assert!(scheduler.schedule(buffer(1, 1_000, 20)));
    assert!(scheduler.schedule(buffer(2, 21_000, 20)));
    assert!(scheduler.schedule(buffer(3, 41_000, 20)));
    assert!(scheduler.schedule(buffer(4, 90_000, 20)));
    // at 45 ms: the first is 44 ms late and the second 24 ms, both more than
    // 20 ms; the third is 4 ms late and plays
    let released = scheduler.next_ready(45_000).unwrap();
    assert_eq!(released.timestamp, 3);
    assert_eq!(scheduler.len(), 1);
    assert!(scheduler.next_ready(45_000).is_none());
    assert_eq!(scheduler.len(), 1);
    // everything that is left is too late: the queue empties and nothing plays
    assert!(scheduler.next_ready(10_000_000).is_none());
    assert!(scheduler.is_empty());
}

#[test]
fn every_buffer_comes_out_once() {
    let mut scheduler = AudioScheduler::new();
    let deadlines: [i64; 8] = [700, 100, 400, 400, 900, 0, 250, 100];
    for (k, d) in deadlines.iter().enumerate() {
        assert!(scheduler.schedule(buffer(k as i64, *d, 1_000)));
    }
    let mut out: Vec<(i64, i64)> = Vec::new();
    while let Some(b) = scheduler.next_ready(1_000) {
        out.push((b.play_at, b.timestamp));
    }
    assert!(scheduler.is_empty());
    let mut expected: Vec<(i64, i64)> =
        deadlines.iter().enumerate().map(|(k, d)| (*d, k as i64)).collect();
    expected.sort();
    assert_eq!(out, expected);
}

#[test]
fn clear_empties_the_queue() {
    let mut scheduler = AudioScheduler::default();
    assert!(scheduler.schedule(buffer(1, 10, 20)));
    assert!(scheduler.schedule(buffer(2, 20, 20)));
    scheduler.clear();
    assert!(scheduler.is_empty());
    assert!(scheduler.next_ready(1_000).is_none());
    assert!(scheduler.schedule(buffer(1, 10, 20)));
}

#[test]
fn callback_plays_a_buffer_to_its_end_then_silence() {
    assert_eq!(FULL_SCALE, (1 << 23) - 1);
    assert_eq!(CHANNEL_CAPACITY, 10);
    let mut cursor = OutputCursor::new();
    assert!(cursor.wants_buffer());
    assert_eq!(cursor.next_sample(), None);
    assert!(cursor.wants_buffer());

    cursor.install(vec![Sample(5), Sample(-6), Sample(7)]);
    assert!(!cursor.wants_buffer());
    assert_eq!(cursor.next_sample(), Some(Sample(5)));
    assert_eq!(cursor.next_sample(), Some(Sample(-6)));
    assert!(!cursor.wants_buffer());
    assert_eq!(cursor.next_sample(), Some(Sample(7)));
    assert!(cursor.wants_buffer());
    assert_eq!(cursor.next_sample(), None);
    assert_eq!(cursor.next_sample(), None);

    cursor.install(vec![]);
    assert!(cursor.wants_buffer());
    cursor.install(vec![Sample(1)]);
    assert_eq!(cursor.next_sample(), Some(Sample(1)));
    assert_eq!(OutputCursor::default().next_sample(), None);
}

#[test]
fn device_that_differs_from_the_stream() {
    let stereo = format(48_000, 2, 16);
    assert!(!stereo.differs_from_device(48_000, 2));
    assert!(stereo.differs_from_device(44_100, 2));
    assert!(stereo.differs_from_device(48_000, 1));
    assert!(stereo.differs_from_device(48_000, 258));
}

#[test]
fn device_is_opened_lazily_and_again_on_a_new_format() {
    let stereo = format(48_000, 2, 16);
    let mono = format(44_100, 1, 24);
    let mut guard = OutputGuard::new();
    assert_eq!(guard, OutputGuard::default());
    assert_eq!(guard.before_buffer(stereo), OutputStep::Open(stereo));
    guard.opened(stereo);
    assert_eq!(guard.before_buffer(stereo), OutputStep::Write);
    guard.written();
    assert_eq!(guard.before_buffer(mono), OutputStep::Open(mono));
    guard.opened(mono);
    assert_eq!(guard.before_buffer(mono), OutputStep::Write);
    assert_eq!(guard.before_buffer(stereo), OutputStep::Open(stereo));
}

#[test]
fn open_failure_is_fatal_only_after_a_buffer_has_played() {
    let stereo = format(48_000, 2, 16);
    let mut guard = OutputGuard::new();
    // before anything has played the device is tried again with the next buffer
    assert!(!guard.open_failed());
    assert_eq!(guard.before_buffer(stereo), OutputStep::Open(stereo));
    assert!(!guard.open_failed());
    guard.opened(stereo);
    guard.written();
    assert!(guard.played);
    assert!(guard.open_failed());
    assert_eq!(guard.open_format, None);
}
