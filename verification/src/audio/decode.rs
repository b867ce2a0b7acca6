//! Decoding of linear PCM: runs of little-endian or big-endian signed samples
//! of 16 or 24 bits.

use crate::audio::{AudioFormat, Sample};
use crate::error::Error;
use vstd::prelude::*;

verus! {

/// Byte order of the samples in a chunk.
#[derive(Debug, Clone, Copy, PartialEq, Eq, Structural)]
pub enum PcmEndian {
    /// Least significant byte first. This is the default.
    Little,
    /// Most significant byte first.
    Big,
}

/// The signed 16-bit number with low byte `lo` and high byte `hi`.
pub open spec fn spec_sample16(lo: u8, hi: u8) -> int {
    let unsigned = lo as int + 0x100 * hi as int;
    if unsigned >= 0x8000 {
        unsigned - 0x1_0000
    } else {
        unsigned
    }
}

/// The signed 24-bit number with the bytes `lo`, `mid` and `hi`.
pub open spec fn spec_sample24(lo: u8, mid: u8, hi: u8) -> int {
    let unsigned = lo as int + 0x100 * mid as int + 0x1_0000 * hi as int;
    if unsigned >= 0x80_0000 {
        unsigned - 0x100_0000
    } else {
        unsigned
    }
}

/// The `i`-th sample of a run of bytes.
pub open spec fn spec_sample_at(data: Seq<u8>, bit_depth: u8, endian: PcmEndian, i: int) -> int {
    if bit_depth == 16 {
        match endian {
            PcmEndian::Little => spec_sample16(data[2 * i], data[2 * i + 1]),
            PcmEndian::Big => spec_sample16(data[2 * i + 1], data[2 * i]),
        }
    } else {
        match endian {
            PcmEndian::Little => spec_sample24(data[3 * i], data[3 * i + 1], data[3 * i + 2]),
            PcmEndian::Big => spec_sample24(data[3 * i + 2], data[3 * i + 1], data[3 * i]),
        }
    }
}

/// What a run of bytes decodes to: one sample for every `bit_depth / 8`
/// bytes, or a failure and no sample at all.
pub open spec fn spec_decode(data: Seq<u8>, bit_depth: u8, endian: PcmEndian) -> Result<
    Seq<int>,
    Error,
> {
    if bit_depth != 16 && bit_depth != 24 {
        Err(Error::UnsupportedBitDepth { bit_depth })
    } else if data.len() % (bit_depth / 8) as nat != 0 {
        Err(Error::PartialFrame { len: data.len() as usize, frame_size: (bit_depth / 8) as usize })
    } else {
        Ok(
            Seq::new(
                data.len() / (bit_depth / 8) as nat,
                |i: int| spec_sample_at(data, bit_depth, endian, i),
            ),
        )
    }
}

/// The values of a run of samples.
pub open spec fn sample_values(samples: Seq<Sample>) -> Seq<int> {
    Seq::new(samples.len(), |i: int| samples[i].0 as int)
}

/// Joins two bytes to a signed 16-bit sample.
fn sample16(lo: u8, hi: u8) -> (s: Sample)
    ensures
        s.0 == spec_sample16(lo, hi),
{
    let unsigned: i32 = lo as i32 + 0x100 * (hi as i32);
    if unsigned >= 0x8000 {
        Sample(unsigned - 0x1_0000)
    } else {
        Sample(unsigned)
    }
}

/// Joins three bytes to a signed 24-bit sample.
fn sample24(lo: u8, mid: u8, hi: u8) -> (s: Sample)
    ensures
        s.0 == spec_sample24(lo, mid, hi),
{
    let unsigned: i32 = lo as i32 + 0x100 * (mid as i32) + 0x1_0000 * (hi as i32);
    if unsigned >= 0x80_0000 {
        Sample(unsigned - 0x100_0000)
    } else {
        Sample(unsigned)
    }
}

/// Decodes a run of 16-bit samples.
fn decode16(data: &[u8], endian: PcmEndian) -> (samples: Vec<Sample>)
    requires
        data@.len() % 2 == 0,
    ensures
        samples@.len() == data@.len() / 2,
        forall|i: int|
            0 <= i < samples@.len() ==> (#[trigger] samples@[i]).0 == spec_sample_at(
                data@,
                16,
                endian,
                i,
            ),
{
    let mut samples: Vec<Sample> = Vec::new();
    let mut pos: usize = 0;
    while pos < data.len()
        invariant
            data@.len() % 2 == 0,
            pos % 2 == 0,
            pos <= data@.len(),
            samples@.len() * 2 == pos,
            forall|i: int|
                0 <= i < samples@.len() ==> (#[trigger] samples@[i]).0 == spec_sample_at(
                    data@,
                    16,
                    endian,
                    i,
                ),
        decreases data@.len() - pos,
    {
        let first: u8 = data[pos];
        let second: u8 = data[pos + 1];
        let s = match endian {
            PcmEndian::Little => sample16(first, second),
            PcmEndian::Big => sample16(second, first),
        };
        samples.push(s);
        pos = pos + 2;
    }
    samples
}

/// Decodes a run of 24-bit samples.
fn decode24(data: &[u8], endian: PcmEndian) -> (samples: Vec<Sample>)
    requires
        data@.len() % 3 == 0,
    ensures
        samples@.len() == data@.len() / 3,
        forall|i: int|
            0 <= i < samples@.len() ==> (#[trigger] samples@[i]).0 == spec_sample_at(
                data@,
                24,
                endian,
                i,
            ),
{
    let mut samples: Vec<Sample> = Vec::new();
    let mut pos: usize = 0;
    while pos < data.len()
        invariant
            data@.len() % 3 == 0,
            pos % 3 == 0,
            pos <= data@.len(),
            samples@.len() * 3 == pos,
            forall|i: int|
                0 <= i < samples@.len() ==> (#[trigger] samples@[i]).0 == spec_sample_at(
                    data@,
                    24,
                    endian,
                    i,
                ),
        decreases data@.len() - pos,
    {
        let first: u8 = data[pos];
        let second: u8 = data[pos + 1];
        let third: u8 = data[pos + 2];
        let s = match endian {
            PcmEndian::Little => sample24(first, second, third),
            PcmEndian::Big => sample24(third, second, first),
        };
        samples.push(s);
        pos = pos + 3;
    }
    samples
}

/// A decoder of linear PCM at one bit depth and byte order.
#[derive(Debug, Clone, Copy, PartialEq, Eq, Structural)]
pub struct PcmDecoder {
    bit_depth: u8,
    endian: PcmEndian,
}

impl PcmDecoder {
    /// The bit depth that the decoder was made for.
    pub closed spec fn spec_bit_depth(self) -> u8 {
        self.bit_depth
    }

    /// The byte order that the decoder was made for.
    pub closed spec fn spec_endian(self) -> PcmEndian {
        self.endian
    }

    /// A decoder of little-endian samples. The byte order is never guessed
    /// from the data.
    pub fn new(bit_depth: u8) -> (decoder: Self)
        ensures
            decoder.spec_bit_depth() == bit_depth,
            decoder.spec_endian() == PcmEndian::Little,
    {
        PcmDecoder { bit_depth, endian: PcmEndian::Little }
    }

    /// A decoder of samples in the given byte order.
    pub fn with_endian(bit_depth: u8, endian: PcmEndian) -> (decoder: Self)
        ensures
            decoder.spec_bit_depth() == bit_depth,
            decoder.spec_endian() == endian,
    {
        PcmDecoder { bit_depth, endian }
    }

    /// The bit depth that this decoder was made for.
    pub fn bit_depth(&self) -> (bit_depth: u8)
        ensures
            bit_depth == self.spec_bit_depth(),
    {
        self.bit_depth
    }

    /// The byte order that this decoder was made for.
    pub fn endian(&self) -> (endian: PcmEndian)
        ensures
            endian == self.spec_endian(),
    {
        self.endian
    }

    /// Decodes a run of bytes. A bit depth other than 16 or 24 fails, and so
    /// does a run that does not hold a whole number of samples; nothing is
    /// decoded of such a run.
    pub fn decode(&self, data: &[u8]) -> (r: Result<Vec<Sample>, Error>)
        ensures
            match (r, spec_decode(data@, self.spec_bit_depth(), self.spec_endian())) {
                (Ok(samples), Ok(values)) => sample_values(samples@) == values,
                (Err(e), Err(expected)) => e == expected,
                _ => false,
            },
            r matches Ok(samples) ==> samples@.len() == data@.len() / (self.spec_bit_depth()
                / 8) as nat,
    {
        if self.bit_depth == 16 {
            if data.len() % 2 != 0 {
                return Err(Error::PartialFrame { len: data.len(), frame_size: 2 });
            }
            let samples = decode16(data, self.endian);
            assert(sample_values(samples@) =~= spec_decode(data@, 16, self.endian)->Ok_0);
            Ok(samples)
        } else if self.bit_depth == 24 {
            if data.len() % 3 != 0 {
                return Err(Error::PartialFrame { len: data.len(), frame_size: 3 });
            }
            let samples = decode24(data, self.endian);
            assert(sample_values(samples@) =~= spec_decode(data@, 24, self.endian)->Ok_0);
            Ok(samples)
        } else {
            Err(Error::UnsupportedBitDepth { bit_depth: self.bit_depth })
        }
    }
}

/// What a chunk decodes to at a stream format: the format must be one that
/// the player accepts and the chunk must hold whole frames; then it decodes
/// as little-endian samples.
pub open spec fn spec_decode_chunk(data: Seq<u8>, format: AudioFormat) -> Result<Seq<int>, Error> {
    if format.bit_depth != 16 && format.bit_depth != 24 {
        Err(Error::UnsupportedBitDepth { bit_depth: format.bit_depth })
    } else if format.channels == 0 || format.sample_rate == 0 {
        Err(Error::UnsupportedFormat)
    } else if data.len() % format.spec_frame_size() as nat != 0 {
        Err(
            Error::PartialFrame {
                len: data.len() as usize,
                frame_size: format.spec_frame_size() as usize,
            },
        )
    } else {
        Ok(
            Seq::new(
                data.len() / (format.bit_depth / 8) as nat,
                |i: int| spec_sample_at(data, format.bit_depth, PcmEndian::Little, i),
            ),
        )
    }
}

/// A run of whole frames is a run of whole samples.
proof fn lemma_whole_frames(len: int, width: int, channels: int)
    requires
        len >= 0,
        width > 0,
        channels > 0,
        len % (width * channels) == 0,
    ensures
        len % width == 0,
        (len / width) % channels == 0,
{
    let frame = width * channels;
    let frames = len / frame;
    assert(frame > 0) by (nonlinear_arith)
        requires
            frame == width * channels,
            width > 0,
            channels > 0,
    ;
    assert(len == frame * frames) by {
        vstd::arithmetic::div_mod::lemma_fundamental_div_mod(len, frame);
    }
    assert(len == width * (channels * frames)) by (nonlinear_arith)
        requires
            len == frame * frames,
            frame == width * channels,
    ;
    vstd::arithmetic::div_mod::lemma_div_multiples_vanish(channels * frames, width);
    vstd::arithmetic::div_mod::lemma_mod_multiples_basic(channels * frames, width);
    assert((channels * frames) * width == len) by (nonlinear_arith)
        requires
            len == width * (channels * frames),
    ;
    assert(len / width == channels * frames);
    vstd::arithmetic::div_mod::lemma_mod_multiples_basic(frames, channels);
    assert(frames * channels == channels * frames) by (nonlinear_arith);
}

/// Decodes one chunk of a stream. The chunk is decoded whole or not at all.
pub fn decode_chunk(data: &[u8], format: &AudioFormat) -> (r: Result<Vec<Sample>, Error>)
    ensures
        match (r, spec_decode_chunk(data@, *format)) {
            (Ok(samples), Ok(values)) => sample_values(samples@) == values,
            (Err(e), Err(expected)) => e == expected,
            _ => false,
        },
        r matches Ok(samples) ==> format.wf() && samples@.len() == data@.len() / (format.bit_depth
            / 8) as nat && samples@.len() % format.channels as nat == 0,
{
    if format.bit_depth != 16 && format.bit_depth != 24 {
        return Err(Error::UnsupportedBitDepth { bit_depth: format.bit_depth });
    }
    if format.channels == 0 || format.sample_rate == 0 {
        return Err(Error::UnsupportedFormat);
    }
    let frame_size: usize = format.frame_size();
    assert(frame_size > 0) by (nonlinear_arith)
        requires
            frame_size == (format.bit_depth / 8) as int * format.channels as int,
            format.bit_depth / 8 > 0,
            format.channels > 0,
    ;
    if data.len() % frame_size != 0 {
        return Err(Error::PartialFrame { len: data.len(), frame_size });
    }
    proof {
        lemma_whole_frames(
            data@.len() as int,
            (format.bit_depth / 8) as int,
            format.channels as int,
        );
    }
    let decoder = PcmDecoder::new(format.bit_depth);
    decoder.decode(data)
}

} // verus!
