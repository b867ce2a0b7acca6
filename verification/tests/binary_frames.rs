use sendspin::error::{Error, ErrorKind};
use sendspin::protocol::client::{
    binary_types, ArtworkChunk, AudioChunk, BinaryFrame, VisualizerChunk,
};

// =============================================================================
// Binary Type Constants Tests
// =============================================================================

#[test]
fn test_binary_type_constants() {
    assert_eq!(binary_types::PLAYER_AUDIO, 0x04);
    assert_eq!(binary_types::ARTWORK_CHANNEL_0, 0x08);
    assert_eq!(binary_types::ARTWORK_CHANNEL_1, 0x09);
    assert_eq!(binary_types::ARTWORK_CHANNEL_2, 0x0A);
    assert_eq!(binary_types::ARTWORK_CHANNEL_3, 0x0B);
    assert_eq!(binary_types::VISUALIZER, 0x10);
}

#[test]
fn test_is_artwork() {
    assert!(!binary_types::is_artwork(0x04)); // Audio
    assert!(!binary_types::is_artwork(0x07)); // Reserved
    assert!(binary_types::is_artwork(0x08)); // Artwork channel 0
    assert!(binary_types::is_artwork(0x09)); // Artwork channel 1
    assert!(binary_types::is_artwork(0x0A)); // Artwork channel 2
    assert!(binary_types::is_artwork(0x0B)); // Artwork channel 3
    assert!(!binary_types::is_artwork(0x0C)); // Out of range
    assert!(!binary_types::is_artwork(0x10)); // Visualizer
}

#[test]
fn test_artwork_channel() {
    assert_eq!(binary_types::artwork_channel(0x08), Some(0));
    assert_eq!(binary_types::artwork_channel(0x09), Some(1));
    assert_eq!(binary_types::artwork_channel(0x0A), Some(2));
    assert_eq!(binary_types::artwork_channel(0x0B), Some(3));
    assert_eq!(binary_types::artwork_channel(0x04), None); // Audio
    assert_eq!(binary_types::artwork_channel(0x10), None); // Visualizer
}

// =============================================================================
// Audio Chunk Tests
// =============================================================================

#[test]
fn test_audio_chunk_parsing() {
    // Type 4, timestamp 1000000 (big-endian), some audio data
    let frame: Vec<u8> = vec![
        0x04, // Type: player audio
        0x00, 0x00, 0x00, 0x00, 0x00, 0x0F, 0x42, 0x40, // Timestamp: 1000000
        0xDE, 0xAD, 0xBE, 0xEF, // Audio data
    ];

    let chunk = AudioChunk::from_bytes(&frame).unwrap();
    assert_eq!(chunk.timestamp, 1000000);
    assert_eq!(chunk.data.len(), 4);
    assert_eq!(&*chunk.data, &[0xDE, 0xAD, 0xBE, 0xEF]);
}

#[test]
fn test_audio_chunk_wrong_type() {
    let frame: Vec<u8> = vec![
        0x08, // Wrong type (artwork)
        0x00, 0x00, 0x00, 0x00, 0x00, 0x00, 0x00, 0x01, // Timestamp
        0x00, // Data
    ];

    let result = AudioChunk::from_bytes(&frame);
    assert!(result.is_err());
}

#[test]
fn test_audio_chunk_too_short() {
    let frame: Vec<u8> = vec![0x04, 0x00, 0x00]; // Only 3 bytes
    let result = AudioChunk::from_bytes(&frame);
    assert!(result.is_err());
}

// =============================================================================
// Artwork Chunk Tests
// =============================================================================

#[test]
fn test_artwork_chunk_channel_0() {
    let frame: Vec<u8> = vec![
        0x08, // Type: artwork channel 0
        0x00, 0x00, 0x00, 0x00, 0x00, 0x00, 0x03, 0xE8, // Timestamp: 1000
        0xFF, 0xD8, 0xFF, 0xE0, // JPEG magic bytes
    ];

    let chunk = ArtworkChunk::from_bytes(&frame).unwrap();
    assert_eq!(chunk.channel, 0);
    assert_eq!(chunk.timestamp, 1000);
    assert_eq!(chunk.data.len(), 4);
    assert!(!chunk.is_clear());
}

#[test]
fn test_artwork_chunk_channel_3() {
    let frame: Vec<u8> = vec![
        0x0B, // Type: artwork channel 3
        0x00, 0x00, 0x00, 0x00, 0x00, 0x00, 0x07, 0xD0, // Timestamp: 2000
        0x89, 0x50, 0x4E, 0x47, // PNG magic bytes
    ];

    let chunk = ArtworkChunk::from_bytes(&frame).unwrap();
    assert_eq!(chunk.channel, 3);
    assert_eq!(chunk.timestamp, 2000);
}

#[test]
fn test_artwork_chunk_clear() {
    // Empty payload = clear artwork
    let frame: Vec<u8> = vec![
        0x09, // Type: artwork channel 1
        0x00, 0x00, 0x00, 0x00, 0x00, 0x00, 0x00, 0x00, // Timestamp: 0
        // No data - clear command
    ];

    let chunk = ArtworkChunk::from_bytes(&frame).unwrap();
    assert_eq!(chunk.channel, 1);
    assert!(chunk.is_clear());
    assert!(chunk.data.is_empty());
}

#[test]
fn test_artwork_chunk_wrong_type() {
    let frame: Vec<u8> = vec![
        0x04, // Wrong type (audio)
        0x00, 0x00, 0x00, 0x00, 0x00, 0x00, 0x00, 0x01,
        0x00,
    ];

    let result = ArtworkChunk::from_bytes(&frame);
    assert!(result.is_err());
}

// =============================================================================
// Visualizer Chunk Tests
// =============================================================================

#[test]
fn test_visualizer_chunk_parsing() {
    let frame: Vec<u8> = vec![
        0x10, // Type: visualizer
        0x00, 0x00, 0x00, 0x00, 0x00, 0x01, 0x86, 0xA0, // Timestamp: 100000
        0x01, 0x02, 0x03, 0x04, 0x05, // FFT data
    ];

    let chunk = VisualizerChunk::from_bytes(&frame).unwrap();
    assert_eq!(chunk.timestamp, 100000);
    assert_eq!(chunk.data.len(), 5);
}

#[test]
fn test_visualizer_chunk_wrong_type() {
    let frame: Vec<u8> = vec![
        0x04, // Wrong type
        0x00, 0x00, 0x00, 0x00, 0x00, 0x00, 0x00, 0x01,
        0x00,
    ];

    let result = VisualizerChunk::from_bytes(&frame);
    assert!(result.is_err());
}

// =============================================================================
// Binary Frame Dispatch Tests
// =============================================================================

#[test]
fn test_binary_frame_audio() {
    let frame: Vec<u8> = vec![
        0x04, // Audio
        0x00, 0x00, 0x00, 0x00, 0x00, 0x00, 0x00, 0x01,
        0xAB, 0xCD,
    ];

    match BinaryFrame::from_bytes(&frame).unwrap() {
        BinaryFrame::Audio(chunk) => {
            assert_eq!(chunk.timestamp, 1);
        }
        _ => panic!("Expected Audio frame"),
    }
}

#[test]
fn test_binary_frame_artwork() {
    let frame: Vec<u8> = vec![
        0x0A, // Artwork channel 2
        0x00, 0x00, 0x00, 0x00, 0x00, 0x00, 0x00, 0x02,
        0x12, 0x34,
    ];

    match BinaryFrame::from_bytes(&frame).unwrap() {
        BinaryFrame::Artwork(chunk) => {
            assert_eq!(chunk.channel, 2);
            assert_eq!(chunk.timestamp, 2);
        }
        _ => panic!("Expected Artwork frame"),
    }
}

#[test]
fn test_binary_frame_visualizer() {
    let frame: Vec<u8> = vec![
        0x10, // Visualizer
        0x00, 0x00, 0x00, 0x00, 0x00, 0x00, 0x00, 0x03,
        0x56, 0x78,
    ];

    match BinaryFrame::from_bytes(&frame).unwrap() {
        BinaryFrame::Visualizer(chunk) => {
            assert_eq!(chunk.timestamp, 3);
        }
        _ => panic!("Expected Visualizer frame"),
    }
}

#[test]
fn test_binary_frame_unknown() {
    let frame: Vec<u8> = vec![
        0xFF, // Unknown type
        0x00, 0x01, 0x02,
    ];

    // Four bytes are less than the nine byte prefix: no frame, whatever the type.
    assert_eq!(
        BinaryFrame::from_bytes(&frame).unwrap_err(),
        Error::FrameTooShort { len: 4 }
    );

    let frame: Vec<u8> = vec![
        0xFF, // Unknown type
        0x00, 0x00, 0x00, 0x00, 0x00, 0x00, 0x00, 0x09, // Timestamp
        0x00, 0x01, 0x02,
    ];

    match BinaryFrame::from_bytes(&frame).unwrap() {
        BinaryFrame::Unknown { type_id, data } => {
            assert_eq!(type_id, 0xFF);
            assert_eq!(data.len(), 3);
            assert_eq!(data, vec![0x00, 0x01, 0x02]);
        }
        _ => panic!("Expected Unknown frame"),
    }
}

#[test]
fn test_binary_frame_empty() {
    let frame: Vec<u8> = vec![];
    let result = BinaryFrame::from_bytes(&frame);
    assert!(result.is_err());
}

// =============================================================================
// Errors, timestamps and payloads in detail
// =============================================================================

#[test]
fn frame_errors_name_their_cause() {
    assert_eq!(BinaryFrame::from_bytes(&[]).unwrap_err(), Error::EmptyFrame);
    assert_eq!(
        AudioChunk::from_bytes(&[0x04, 0x00, 0x00]).unwrap_err(),
        Error::FrameTooShort { len: 3 }
    );
    assert_eq!(
        AudioChunk::from_bytes(&[0x08, 0, 0, 0, 0, 0, 0, 0, 1, 0]).unwrap_err(),
        Error::FrameType { type_id: 0x08 }
    );
    assert_eq!(
        ArtworkChunk::from_bytes(&[0x0C, 0, 0, 0, 0, 0, 0, 0, 1]).unwrap_err(),
        Error::FrameType { type_id: 0x0C }
    );
    assert_eq!(
        VisualizerChunk::from_bytes(&[0x10, 0, 0, 0, 0, 0, 0, 0]).unwrap_err(),
        Error::FrameTooShort { len: 8 }
    );
    // A frame of a known type needs its whole prefix, whichever way it is parsed.
    assert_eq!(
        BinaryFrame::from_bytes(&[0x0B, 1, 2]).unwrap_err(),
        Error::FrameTooShort { len: 3 }
    );
}

#[test]
fn frame_errors_are_recoverable() {
    let e = BinaryFrame::from_bytes(&[0x04]).unwrap_err();
    assert_eq!(e.kind(), ErrorKind::Decode);
    assert!(!e.is_fatal());
    assert!(Error::UnexpectedMessage.is_fatal());
    assert_eq!(Error::UnexpectedMessage.kind(), ErrorKind::Protocol);
    assert_eq!(Error::NoServerHello.kind(), ErrorKind::Connection);
    assert!(Error::Transport.is_fatal());
}

#[test]
fn timestamp_is_big_endian_and_signed() {
    let mut frame: Vec<u8> = vec![0x04, 0xFF, 0xFF, 0xFF, 0xFF, 0xFF, 0xFF, 0xFF, 0xFF];
    assert_eq!(AudioChunk::from_bytes(&frame).unwrap().timestamp, -1);
    frame = vec![0x04, 0x80, 0, 0, 0, 0, 0, 0, 0];
    assert_eq!(AudioChunk::from_bytes(&frame).unwrap().timestamp, i64::MIN);
    frame = vec![0x04, 0x7F, 0xFF, 0xFF, 0xFF, 0xFF, 0xFF, 0xFF, 0xFF];
    assert_eq!(AudioChunk::from_bytes(&frame).unwrap().timestamp, i64::MAX);
    frame = vec![0x10, 0x01, 0x02, 0x03, 0x04, 0x05, 0x06, 0x07, 0x08];
    assert_eq!(
        VisualizerChunk::from_bytes(&frame).unwrap().timestamp,
        0x0102_0304_0506_0708
    );
}

#[test]
fn timestamp_matches_the_bytes_for_every_known_type() {
    let stamps: [i64; 5] = [0, 1, -2, 1_000_000, -9_000_000_000_000];
    for type_id in [0x04u8, 0x08, 0x09, 0x0A, 0x0B, 0x10] {
        for stamp in stamps {
            let mut frame = vec![type_id];
            frame.extend_from_slice(&stamp.to_be_bytes());
            frame.extend_from_slice(&[7, 8, 9]);
            let parsed = BinaryFrame::from_bytes(&frame).unwrap();
            assert_eq!(parsed.timestamp(), Some(stamp));
        }
    }
}

#[test]
fn unknown_frame_keeps_its_type_and_its_payload() {
    match BinaryFrame::from_bytes(&[0x05, 0, 0, 0, 0, 0, 0, 0, 7, 0xAA]).unwrap() {
        BinaryFrame::Unknown { type_id, data } => {
            assert_eq!(type_id, 0x05);
            assert_eq!(data, vec![0xAA]);
        }
        _ => panic!("expected an unknown frame"),
    }
    // nine bytes: the prefix and no payload
    match BinaryFrame::from_bytes(&[0x11, 9, 8, 7, 6, 5, 4, 3, 2]).unwrap() {
        BinaryFrame::Unknown { type_id, data } => {
            assert_eq!(type_id, 0x11);
            assert!(data.is_empty());
        }
        _ => panic!("expected an unknown frame"),
    }
    let parsed = BinaryFrame::from_bytes(&[0x11, 9, 8, 7, 6, 5, 4, 3, 2, 1, 0]).unwrap();
    assert_eq!(parsed.timestamp(), None);
    match parsed {
        BinaryFrame::Unknown { type_id, data } => {
            assert_eq!(type_id, 0x11);
            assert_eq!(data, vec![1, 0]);
        }
        _ => panic!("expected an unknown frame"),
    }
}

#[test]
fn short_frame_is_refused_whatever_its_type() {
    for type_id in [0x00u8, 0x04, 0x05, 0x08, 0x0B, 0x0C, 0x10, 0x11, 0xFF] {
        for len in 1..9usize {
            let mut frame = vec![0u8; len];
            frame[0] = type_id;
            assert_eq!(
                BinaryFrame::from_bytes(&frame).unwrap_err(),
                Error::FrameTooShort { len }
            );
        }
        let mut whole = vec![0u8; 9];
        whole[0] = type_id;
        assert!(BinaryFrame::from_bytes(&whole).is_ok());
    }
}

#[test]
fn audio_frame_parses_to_chunk_with_payload() {
    let frame: Vec<u8> = vec![
        0x04, 0x00, 0x00, 0x00, 0x00, 0x00, 0x0F, 0x42, 0x40, 0xDE, 0xAD, 0xBE, 0xEF,
    ];
    match BinaryFrame::from_bytes(&frame).unwrap() {
        BinaryFrame::Audio(chunk) => {
            assert_eq!(chunk.timestamp, 1_000_000);
            assert_eq!(chunk.data, vec![0xDE, 0xAD, 0xBE, 0xEF]);
        }
        _ => panic!("expected an audio frame"),
    }
}

#[test]
fn empty_artwork_frame_clears_its_channel() {
    let frame: Vec<u8> = vec![0x09, 0x00, 0x00, 0x00, 0x00, 0x00, 0x00, 0x00, 0x00];
    match BinaryFrame::from_bytes(&frame).unwrap() {
        BinaryFrame::Artwork(chunk) => {
            assert_eq!(chunk.channel, 1);
            assert_eq!(chunk.timestamp, 0);
            assert!(chunk.is_clear());
        }
        _ => panic!("expected an artwork frame"),
    }
}
