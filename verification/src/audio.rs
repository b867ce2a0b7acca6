//! Audio formats, samples and buffers.

use vstd::prelude::*;

pub mod decode;
pub mod output;

verus! {

/// The codecs that the player decodes.
#[derive(Debug, Clone, Copy, PartialEq, Eq, Structural)]
pub enum Codec {
    /// Linear PCM.
    Pcm,
}

/// The format of a stream.
#[derive(Debug, Clone, Copy, PartialEq, Eq, Structural)]
pub struct AudioFormat {
    /// Codec of the stream.
    pub codec: Codec,
    /// Frames per second.
    pub sample_rate: u32,
    /// Samples per frame.
    pub channels: u8,
    /// Bits per sample.
    pub bit_depth: u8,
}

impl AudioFormat {
    /// The formats that the player accepts: 16 or 24 bits, at least one
    /// channel, and a sample rate above zero.
    pub open spec fn wf(self) -> bool {
        &&& self.bit_depth == 16 || self.bit_depth == 24
        &&& self.channels > 0
        &&& self.sample_rate > 0
    }

    /// Bytes that one frame takes: one sample of each channel.
    pub open spec fn spec_frame_size(self) -> int {
        (self.bit_depth / 8) as int * self.channels as int
    }

    /// Whether this is a format that the player accepts.
    pub fn is_supported(&self) -> (b: bool)
        ensures
            b == self.wf(),
    {
        (self.bit_depth == 16 || self.bit_depth == 24) && self.channels > 0 && self.sample_rate > 0
    }

    /// Whether a device that runs at `device_rate` frames per second with
    /// `device_channels` channels differs from this format. The player then
    /// warns and goes on: the platform may resample.
    pub fn differs_from_device(&self, device_rate: u32, device_channels: u16) -> (differs: bool)
        ensures
            differs == (device_rate != self.sample_rate || device_channels != self.channels),
    {
        device_rate != self.sample_rate || device_channels != self.channels as u16
    }

    /// Bytes that one frame takes.
    pub fn frame_size(&self) -> (size: usize)
        ensures
            size == self.spec_frame_size(),
    {
        let width: usize = (self.bit_depth / 8) as usize;
        let channels: usize = self.channels as usize;
        assert(width * channels <= 31 * 255) by (nonlinear_arith)
            requires
                width <= 31,
                channels <= 255,
        ;
        width * channels
    }
}

/// One decoded sample, sign-extended to 32 bits.
#[derive(Debug, Clone, Copy, PartialEq, Eq, Structural)]
pub struct Sample(pub i32);

/// The time, in whole microseconds, that `samples` interleaved samples take
/// at a format: the number of whole frames, times a million, divided by the
/// sample rate and rounded down.
pub open spec fn spec_duration_micros(samples: int, format: AudioFormat) -> int
    recommends
        format.wf(),
{
    ((samples / format.channels as int) * 1_000_000) / format.sample_rate as int
}

/// A count of microseconds held at the largest unsigned 64-bit number.
pub open spec fn clamp_u64(micros: int) -> int {
    if micros <= u64::MAX {
        micros
    } else {
        u64::MAX as int
    }
}

/// The time in microseconds that `samples` interleaved samples take, held at
/// the largest 64-bit number.
pub fn duration_micros(samples: usize, format: &AudioFormat) -> (micros: u64)
    requires
        format.wf(),
    ensures
        micros == clamp_u64(spec_duration_micros(samples as int, *format)),
{
    let frames: u64 = (samples / (format.channels as usize)) as u64;
    let scaled: u128 = frames as u128 * 1_000_000;
    let micros: u128 = scaled / (format.sample_rate as u128);
    if micros <= u64::MAX as u128 {
        micros as u64
    } else {
        u64::MAX
    }
}

/// A decoded buffer with the local time at which it is to start playing.
#[derive(Debug, Clone)]
pub struct AudioBuffer {
    /// Server timestamp in microseconds.
    pub timestamp: i64,
    /// Deadline: local time, in microseconds, at which playback starts.
    pub play_at: i64,
    /// Interleaved samples.
    pub samples: Vec<Sample>,
    /// Format of the samples.
    pub format: AudioFormat,
}

/// An audio buffer over plain values.
pub ghost struct BufferModel {
    pub timestamp: int,
    pub play_at: int,
    pub samples: Seq<Sample>,
    pub format: AudioFormat,
}

impl BufferModel {
    /// The time that the buffer takes to play, in microseconds, held at the
    /// largest 64-bit number.
    pub open spec fn duration(self) -> int {
        clamp_u64(spec_duration_micros(self.samples.len() as int, self.format))
    }
}

impl View for AudioBuffer {
    type V = BufferModel;

    open spec fn view(&self) -> BufferModel {
        BufferModel {
            timestamp: self.timestamp as int,
            play_at: self.play_at as int,
            samples: self.samples@,
            format: self.format,
        }
    }
}

impl AudioBuffer {
    /// The time that this buffer takes to play, in microseconds.
    pub fn duration_micros(&self) -> (micros: u64)
        requires
            self.format.wf(),
        ensures
            micros == self@.duration(),
    {
        duration_micros(self.samples.len(), &self.format)
    }
}

} // verus!
