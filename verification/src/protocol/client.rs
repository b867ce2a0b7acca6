//! Binary frames: one type byte, an eight byte big-endian signed timestamp in
//! microseconds, then the payload.

use crate::error::Error;
use vstd::prelude::*;
use vstd::slice::slice_subrange;
use vstd::slice::slice_to_vec;

pub mod binary_types;

verus! {

/// Length of the prefix that every typed frame carries.
pub const FRAME_PREFIX_LEN: usize = 9;

/// The unsigned number that eight bytes spell, most significant byte first.
pub open spec fn be_u64(b: Seq<u8>) -> int
    recommends
        b.len() == 8,
{
    b[0] as int * 0x0100_0000_0000_0000 + b[1] as int * 0x0001_0000_0000_0000 + b[2] as int
        * 0x0000_0100_0000_0000 + b[3] as int * 0x0000_0001_0000_0000 + b[4] as int * 0x0100_0000
        + b[5] as int * 0x0001_0000 + b[6] as int * 0x0100 + b[7] as int
}

/// The signed number that eight bytes spell in two's complement, most
/// significant byte first.
pub open spec fn be_i64(b: Seq<u8>) -> int
    recommends
        b.len() == 8,
{
    if be_u64(b) >= 0x8000_0000_0000_0000 {
        be_u64(b) - 0x1_0000_0000_0000_0000
    } else {
        be_u64(b)
    }
}

/// The timestamp of a frame of at least nine bytes.
pub open spec fn frame_timestamp(frame: Seq<u8>) -> int
    recommends
        frame.len() >= 9,
{
    be_i64(frame.subrange(1, 9))
}

/// The payload of a frame of at least nine bytes.
pub open spec fn frame_payload(frame: Seq<u8>) -> Seq<u8>
    recommends
        frame.len() >= 9,
{
    frame.subrange(9, frame.len() as int)
}

/// Reads the timestamp of a frame.
pub fn read_timestamp(frame: &[u8]) -> (timestamp: i64)
    requires
        frame@.len() >= 9,
    ensures
        timestamp == frame_timestamp(frame@),
{
    let b0: u64 = frame[1] as u64;
    let b1: u64 = frame[2] as u64;
    let b2: u64 = frame[3] as u64;
    let b3: u64 = frame[4] as u64;
    let b4: u64 = frame[5] as u64;
    let b5: u64 = frame[6] as u64;
    let b6: u64 = frame[7] as u64;
    let b7: u64 = frame[8] as u64;
    let unsigned: u64 = b0 * 0x0100_0000_0000_0000 + b1 * 0x0001_0000_0000_0000 + b2
        * 0x0000_0100_0000_0000 + b3 * 0x0000_0001_0000_0000 + b4 * 0x0100_0000 + b5 * 0x0001_0000
        + b6 * 0x0100 + b7;
    if unsigned >= 0x8000_0000_0000_0000 {
        let low: u64 = unsigned - 0x8000_0000_0000_0000;
        (low as i64) + i64::MIN
    } else {
        unsigned as i64
    }
}

/// Copies the bytes of a frame from `start` to its end.
fn copy_tail(frame: &[u8], start: usize) -> (data: Vec<u8>)
    requires
        start <= frame@.len(),
    ensures
        data@ == frame@.subrange(start as int, frame@.len() as int),
{
    slice_to_vec(slice_subrange(frame, start, frame.len()))
}

/// An audio chunk: PCM bytes and the server time at which they are to play.
#[derive(Debug, Clone)]
pub struct AudioChunk {
    /// Server timestamp in microseconds.
    pub timestamp: i64,
    /// Raw audio bytes.
    pub data: Vec<u8>,
}

impl AudioChunk {
    /// What a frame must look like to be an audio chunk, and the failure
    /// that each other frame gives.
    pub open spec fn parse(frame: Seq<u8>) -> Result<(int, Seq<u8>), Error> {
        if frame.len() < 9 {
            Err(Error::FrameTooShort { len: frame.len() as usize })
        } else if frame[0] != 0x04 {
            Err(Error::FrameType { type_id: frame[0] })
        } else {
            Ok((frame_timestamp(frame), frame_payload(frame)))
        }
    }

    /// Parses a player audio frame.
    pub fn from_bytes(frame: &[u8]) -> (r: Result<Self, Error>)
        ensures
            match (r, Self::parse(frame@)) {
                (Ok(chunk), Ok((timestamp, payload))) => chunk.timestamp == timestamp
                    && chunk.data@ == payload,
                (Err(e), Err(expected)) => e == expected,
                _ => false,
            },
    {
        if frame.len() < FRAME_PREFIX_LEN {
            return Err(Error::FrameTooShort { len: frame.len() });
        }
        if frame[0] != binary_types::PLAYER_AUDIO {
            return Err(Error::FrameType { type_id: frame[0] });
        }
        Ok(AudioChunk { timestamp: read_timestamp(frame), data: copy_tail(frame, FRAME_PREFIX_LEN) })
    }
}

/// An artwork chunk: an image for one of four channels, or the command to
/// clear that channel.
#[derive(Debug, Clone)]
pub struct ArtworkChunk {
    /// Artwork channel, 0 to 3.
    pub channel: u8,
    /// Server timestamp in microseconds.
    pub timestamp: i64,
    /// Image bytes; none means that the artwork is to be cleared.
    pub data: Vec<u8>,
}

impl ArtworkChunk {
    /// What a frame must look like to be an artwork chunk, and the failure
    /// that each other frame gives.
    pub open spec fn parse(frame: Seq<u8>) -> Result<(u8, int, Seq<u8>), Error> {
        if frame.len() < 9 {
            Err(Error::FrameTooShort { len: frame.len() as usize })
        } else {
            match binary_types::spec_artwork_channel(frame[0]) {
                Some(channel) => Ok((channel, frame_timestamp(frame), frame_payload(frame))),
                None => Err(Error::FrameType { type_id: frame[0] }),
            }
        }
    }

    /// Whether the chunk clears its channel: it carries no image.
    pub open spec fn spec_is_clear(self) -> bool {
        self.data@.len() == 0
    }

    /// Parses an artwork frame.
    pub fn from_bytes(frame: &[u8]) -> (r: Result<Self, Error>)
        ensures
            match (r, Self::parse(frame@)) {
                (Ok(chunk), Ok((channel, timestamp, payload))) => chunk.channel == channel
                    && chunk.channel <= 3 && chunk.timestamp == timestamp && chunk.data@
                    == payload,
                (Err(e), Err(expected)) => e == expected,
                _ => false,
            },
    {
        if frame.len() < FRAME_PREFIX_LEN {
            return Err(Error::FrameTooShort { len: frame.len() });
        }
        let type_id: u8 = frame[0];
        match binary_types::artwork_channel(type_id) {
            Some(channel) => Ok(
                ArtworkChunk {
                    channel,
                    timestamp: read_timestamp(frame),
                    data: copy_tail(frame, FRAME_PREFIX_LEN),
                },
            ),
            None => Err(Error::FrameType { type_id }),
        }
    }

    /// Whether this chunk is a clear command.
    pub fn is_clear(&self) -> (b: bool)
        ensures
            b == self.spec_is_clear(),
    {
        self.data.len() == 0
    }
}

/// A visualizer chunk: opaque analysis data.
#[derive(Debug, Clone)]
pub struct VisualizerChunk {
    /// Server timestamp in microseconds.
    pub timestamp: i64,
    /// Visualization bytes.
    pub data: Vec<u8>,
}

impl VisualizerChunk {
    /// What a frame must look like to be a visualizer chunk, and the failure
    /// that each other frame gives.
    pub open spec fn parse(frame: Seq<u8>) -> Result<(int, Seq<u8>), Error> {
        if frame.len() < 9 {
            Err(Error::FrameTooShort { len: frame.len() as usize })
        } else if frame[0] != 0x10 {
            Err(Error::FrameType { type_id: frame[0] })
        } else {
            Ok((frame_timestamp(frame), frame_payload(frame)))
        }
    }

    /// Parses a visualizer frame.
    pub fn from_bytes(frame: &[u8]) -> (r: Result<Self, Error>)
        ensures
            match (r, Self::parse(frame@)) {
                (Ok(chunk), Ok((timestamp, payload))) => chunk.timestamp == timestamp
                    && chunk.data@ == payload,
                (Err(e), Err(expected)) => e == expected,
                _ => false,
            },
    {
        if frame.len() < FRAME_PREFIX_LEN {
            return Err(Error::FrameTooShort { len: frame.len() });
        }
        if frame[0] != binary_types::VISUALIZER {
            return Err(Error::FrameType { type_id: frame[0] });
        }
        Ok(
            VisualizerChunk {
                timestamp: read_timestamp(frame),
                data: copy_tail(frame, FRAME_PREFIX_LEN),
            },
        )
    }
}

/// Any binary frame.
#[derive(Debug, Clone)]
pub enum BinaryFrame {
    /// Player audio.
    Audio(AudioChunk),
    /// Artwork image or clear command.
    Artwork(ArtworkChunk),
    /// Visualizer data.
    Visualizer(VisualizerChunk),
    /// A frame of a type that this client does not know; it is kept, not dropped.
    Unknown {
        /// The type byte.
        type_id: u8,
        /// The payload: everything after the nine byte prefix.
        data: Vec<u8>,
    },
}

/// What a binary frame is, over plain values.
pub enum FrameModel {
    Audio { timestamp: int, data: Seq<u8> },
    Artwork { channel: u8, timestamp: int, data: Seq<u8> },
    Visualizer { timestamp: int, data: Seq<u8> },
    Unknown { type_id: u8, data: Seq<u8> },
}

impl View for BinaryFrame {
    type V = FrameModel;

    open spec fn view(&self) -> FrameModel {
        match self {
            BinaryFrame::Audio(c) => FrameModel::Audio {
                timestamp: c.timestamp as int,
                data: c.data@,
            },
            BinaryFrame::Artwork(c) => FrameModel::Artwork {
                channel: c.channel,
                timestamp: c.timestamp as int,
                data: c.data@,
            },
            BinaryFrame::Visualizer(c) => FrameModel::Visualizer {
                timestamp: c.timestamp as int,
                data: c.data@,
            },
            BinaryFrame::Unknown { type_id, data } => FrameModel::Unknown {
                type_id: *type_id,
                data: data@,
            },
        }
    }
}

impl BinaryFrame {
    /// Which frame a run of bytes is. Every frame must carry the whole nine
    /// byte prefix, whatever its type byte. The type byte then picks the
    /// sink; a frame of an unknown type is kept with its type byte and its
    /// payload.
    pub open spec fn demux(frame: Seq<u8>) -> Result<FrameModel, Error> {
        if frame.len() == 0 {
            Err(Error::EmptyFrame)
        } else if frame.len() < 9 {
            Err(Error::FrameTooShort { len: frame.len() as usize })
        } else if frame[0] == 0x04 {
            Ok(FrameModel::Audio { timestamp: frame_timestamp(frame), data: frame_payload(frame) })
        } else if binary_types::spec_is_artwork(frame[0]) {
            Ok(
                FrameModel::Artwork {
                    channel: (frame[0] - 0x08) as u8,
                    timestamp: frame_timestamp(frame),
                    data: frame_payload(frame),
                },
            )
        } else if frame[0] == 0x10 {
            Ok(
                FrameModel::Visualizer {
                    timestamp: frame_timestamp(frame),
                    data: frame_payload(frame),
                },
            )
        } else {
            Ok(FrameModel::Unknown { type_id: frame[0], data: frame_payload(frame) })
        }
    }

    /// The timestamp that a frame carries; an unknown frame carries none.
    pub open spec fn spec_timestamp(self) -> Option<int> {
        match self {
            BinaryFrame::Audio(c) => Some(c.timestamp as int),
            BinaryFrame::Artwork(c) => Some(c.timestamp as int),
            BinaryFrame::Visualizer(c) => Some(c.timestamp as int),
            BinaryFrame::Unknown { .. } => None,
        }
    }

    /// Parses any binary frame.
    pub fn from_bytes(frame: &[u8]) -> (r: Result<Self, Error>)
        ensures
            match (r, Self::demux(frame@)) {
                (Ok(parsed), Ok(model)) => parsed@ == model,
                (Err(e), Err(expected)) => e == expected,
                _ => false,
            },
    {
        if frame.len() == 0 {
            return Err(Error::EmptyFrame);
        }
        if frame.len() < FRAME_PREFIX_LEN {
            return Err(Error::FrameTooShort { len: frame.len() });
        }
        let type_id: u8 = frame[0];
        if type_id == binary_types::PLAYER_AUDIO {
            match AudioChunk::from_bytes(frame) {
                Ok(chunk) => Ok(BinaryFrame::Audio(chunk)),
                Err(e) => Err(e),
            }
        } else if binary_types::is_artwork(type_id) {
            match ArtworkChunk::from_bytes(frame) {
                Ok(chunk) => Ok(BinaryFrame::Artwork(chunk)),
                Err(e) => Err(e),
            }
        } else if type_id == binary_types::VISUALIZER {
            match VisualizerChunk::from_bytes(frame) {
                Ok(chunk) => Ok(BinaryFrame::Visualizer(chunk)),
                Err(e) => Err(e),
            }
        } else {
            Ok(BinaryFrame::Unknown { type_id, data: copy_tail(frame, FRAME_PREFIX_LEN) })
        }
    }

    /// The timestamp of this frame, where its type has one.
    pub fn timestamp(&self) -> (t: Option<i64>)
        ensures
            match (t, self.spec_timestamp()) {
                (Some(a), Some(b)) => a == b,
                (None, None) => true,
                _ => false,
            },
    {
        match self {
            BinaryFrame::Audio(c) => Some(c.timestamp),
            BinaryFrame::Artwork(c) => Some(c.timestamp),
            BinaryFrame::Visualizer(c) => Some(c.timestamp),
            BinaryFrame::Unknown { .. } => None,
        }
    }
}

/// The timestamp of a frame model; an unknown frame carries none.
pub open spec fn model_timestamp(m: FrameModel) -> Option<int> {
    match m {
        FrameModel::Audio { timestamp, .. } => Some(timestamp),
        FrameModel::Artwork { timestamp, .. } => Some(timestamp),
        FrameModel::Visualizer { timestamp, .. } => Some(timestamp),
        FrameModel::Unknown { .. } => None,
    }
}

/// Whether a type byte is one of those that this client knows.
pub open spec fn known_type(type_id: u8) -> bool {
    type_id == 0x04 || binary_types::spec_is_artwork(type_id) || type_id == 0x10
}

/// Every frame of at least nine bytes is accepted. Where its type is known,
/// its timestamp is the big-endian signed number in bytes one to eight;
/// where it is not, the frame is kept with its type byte and its payload.
pub proof fn lemma_demux_timestamp(frame: Seq<u8>)
    requires
        frame.len() >= 9,
    ensures
        BinaryFrame::demux(frame) is Ok,
        known_type(frame[0]) ==> model_timestamp(BinaryFrame::demux(frame)->Ok_0) == Some(
            be_i64(frame.subrange(1, 9)),
        ),
        !known_type(frame[0]) ==> BinaryFrame::demux(frame)->Ok_0 == (FrameModel::Unknown {
            type_id: frame[0],
            data: frame.subrange(9, frame.len() as int),
        }),
        i64::MIN <= be_i64(frame.subrange(1, 9)) <= i64::MAX,
{
}

/// Every frame of fewer than nine bytes is refused, whatever its type byte.
pub proof fn lemma_short_frame_is_refused(frame: Seq<u8>)
    requires
        frame.len() < 9,
    ensures
        BinaryFrame::demux(frame) == Err::<FrameModel, Error>(
            if frame.len() == 0 {
                Error::EmptyFrame
            } else {
                Error::FrameTooShort { len: frame.len() as usize }
            },
        ),
{
}

/// An artwork frame of exactly nine bytes is a clear command for its channel.
pub proof fn lemma_empty_artwork_is_clear(frame: Seq<u8>)
    requires
        frame.len() == 9,
        binary_types::spec_is_artwork(frame[0]),
    ensures
        BinaryFrame::demux(frame) matches Ok(FrameModel::Artwork { channel, data, .. })
            && channel == frame[0] - 0x08 && data.len() == 0,
{
}

} // verus!
