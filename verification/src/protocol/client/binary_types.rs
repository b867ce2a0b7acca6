//! Type bytes of binary frames.

use vstd::prelude::*;

verus! {

/// Player audio chunk.
pub const PLAYER_AUDIO: u8 = 0x04;

/// Artwork channel 0.
pub const ARTWORK_CHANNEL_0: u8 = 0x08;

/// Artwork channel 1.
pub const ARTWORK_CHANNEL_1: u8 = 0x09;

/// Artwork channel 2.
pub const ARTWORK_CHANNEL_2: u8 = 0x0A;

/// Artwork channel 3.
pub const ARTWORK_CHANNEL_3: u8 = 0x0B;

/// Visualizer data.
pub const VISUALIZER: u8 = 0x10;

/// Whether a type byte names one of the four artwork channels.
pub open spec fn spec_is_artwork(type_id: u8) -> bool {
    0x08 <= type_id <= 0x0B
}

/// The artwork channel that a type byte names, if it names one.
pub open spec fn spec_artwork_channel(type_id: u8) -> Option<u8> {
    if spec_is_artwork(type_id) {
        Some((type_id - 0x08) as u8)
    } else {
        None
    }
}

/// Whether a type byte names an artwork channel.
pub fn is_artwork(type_id: u8) -> (b: bool)
    ensures
        b == spec_is_artwork(type_id),
{
    ARTWORK_CHANNEL_0 <= type_id && type_id <= ARTWORK_CHANNEL_3
}

/// The artwork channel, 0 to 3, that a type byte names.
pub fn artwork_channel(type_id: u8) -> (channel: Option<u8>)
    ensures
        channel == spec_artwork_channel(type_id),
        channel matches Some(c) ==> c <= 3,
{
    if is_artwork(type_id) {
        Some(type_id - ARTWORK_CHANNEL_0)
    } else {
        None
    }
}

} // verus!
