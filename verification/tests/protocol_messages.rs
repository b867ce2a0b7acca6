use sendspin::error::{Error, ErrorKind};
use sendspin::protocol::codec::{decode_message, encode_message, parse_json, print_json};
use sendspin::protocol::json::{Json, Member, Number};
use sendspin::protocol::messages::{
    ArtworkFormatRequest, ArtworkV1Support, AudioFormatSpec, ClientCommand, ClientGoodbye,
    ClientHello, ClientState, ClientTime, ConnectionReason, ControllerCommand, ControllerState,
    DeviceInfo, GoodbyeReason, GroupUpdate, Message, MessageKind, MetadataState, PlaybackState,
    PlayerCommand, PlayerFormatRequest, PlayerState, PlayerSyncState, PlayerV1Support,
    RepeatMode, ServerCommand, ServerHello, ServerState, ServerTime, StreamArtworkConfig,
    StreamClear, StreamEnd, StreamPlayerConfig, StreamRequestFormat, StreamStart,
    StreamVisualizerConfig, TrackProgress, VisualizerV1Support,
};
use sendspin::protocol::session::{event_of_text, Event};

// =============================================================================
// Handshake Tests
// =============================================================================

#[test]
fn test_client_hello_serialization() {
    let hello = ClientHello {
        client_id: "test-client-123".to_string(),
        name: "Test Player".to_string(),
        version: 1,
        supported_roles: vec!["player@v1".to_string()],
        device_info: Some(DeviceInfo {
            product_name: Some("Sendspin-RS Player".to_string()),
            manufacturer: Some("Sendspin".to_string()),
            software_version: Some("0.1.0".to_string()),
        }),
        player_v1_support: Some(PlayerV1Support {
            supported_formats: vec![AudioFormatSpec {
                codec: "pcm".to_string(),
                channels: 2,
                sample_rate: 48000,
                bit_depth: 24,
            }],
            buffer_capacity: 100,
            supported_commands: vec!["play".to_string(), "pause".to_string()],
        }),
        artwork_v1_support: None,
        visualizer_v1_support: None,
    };

    let message = Message::ClientHello(hello);
    let json = encode_message(&message).unwrap();

    assert!(json.contains("\"type\":\"client/hello\""));
    assert!(json.contains("\"client_id\":\"test-client-123\""));
    assert!(json.contains("\"player@v1_support\""));
    assert!(json.contains("\"player@v1\""));
}

#[test]
fn test_server_hello_deserialization() {
    let json = r#"{
        "type": "server/hello",
        "payload": {
            "server_id": "server-456",
            "name": "Test Server",
            "version": 1,
            "active_roles": ["player@v1"],
            "connection_reason": "playback"
        }
    }"#;

    let message: Message = decode_message(json).unwrap();

    match message {
        Message::ServerHello(hello) => {
            assert_eq!(hello.server_id, "server-456");
            assert_eq!(hello.name, "Test Server");
            assert_eq!(hello.version, 1);
            assert_eq!(hello.active_roles, vec!["player@v1"]);
            assert_eq!(hello.connection_reason, ConnectionReason::Playback);
        }
        _ => panic!("Expected ServerHello"),
    }
}

// =============================================================================
// State Tests
// =============================================================================

#[test]
fn test_client_state_serialization() {
    let state = ClientState {
        player: Some(PlayerState {
            state: PlayerSyncState::Synchronized,
            volume: Some(100),
            muted: Some(false),
        }),
    };

    let message = Message::ClientState(state);
    let json = encode_message(&message).unwrap();

    assert!(json.contains("\"type\":\"client/state\""));
    assert!(json.contains("\"state\":\"synchronized\""));
    assert!(json.contains("\"volume\":100"));
}

#[test]
fn test_player_sync_state_error() {
    let state = ClientState {
        player: Some(PlayerState {
            state: PlayerSyncState::Error,
            volume: None,
            muted: None,
        }),
    };

    let message = Message::ClientState(state);
    let json = encode_message(&message).unwrap();

    assert!(json.contains("\"state\":\"error\""));
}

#[test]
fn test_server_state_metadata_deserialization() {
    let json = r#"{
        "type": "server/state",
        "payload": {
            "metadata": {
                "timestamp": 1234567890,
                "title": "Test Song",
                "artist": "Test Artist",
                "album": "Test Album",
                "year": 2024,
                "progress": {
                    "position": 60000000,
                    "duration": 180000000,
                    "playback_speed": 1.0
                },
                "repeat": "off",
                "shuffle": false
            }
        }
    }"#;

    let message: Message = decode_message(json).unwrap();

    match message {
        Message::ServerState(state) => {
            let metadata = state.metadata.expect("Expected metadata");
            assert_eq!(metadata.timestamp, 1234567890);
            assert_eq!(metadata.title, Some("Test Song".to_string()));
            assert_eq!(metadata.artist, Some("Test Artist".to_string()));
            assert_eq!(metadata.album, Some("Test Album".to_string()));
            assert_eq!(metadata.year, Some(2024));

            let progress = metadata.progress.expect("Expected progress");
            assert_eq!(progress.position, 60000000);
            assert_eq!(progress.duration, 180000000);
            let speed = match progress.playback_speed {
                Some(Number::Real(text)) => text.parse::<f64>().ok(),
                Some(Number::Int(whole)) => Some(whole as f64),
                None => None,
            };
            assert_eq!(speed, Some(1.0));

            assert_eq!(metadata.repeat, Some(RepeatMode::Off));
            assert_eq!(metadata.shuffle, Some(false));
        }
        _ => panic!("Expected ServerState"),
    }
}

#[test]
fn test_server_state_controller_deserialization() {
    let json = r#"{
        "type": "server/state",
        "payload": {
            "controller": {
                "supported_commands": ["play", "pause", "next", "previous", "volume", "mute"],
                "volume": 75,
                "muted": false
            }
        }
    }"#;

    let message: Message = decode_message(json).unwrap();

    match message {
        Message::ServerState(state) => {
            let controller = state.controller.expect("Expected controller");
            assert_eq!(controller.volume, 75);
            assert!(!controller.muted);
            assert!(controller.supported_commands.contains(&"play".to_string()));
            assert!(controller.supported_commands.contains(&"volume".to_string()));
        }
        _ => panic!("Expected ServerState"),
    }
}

// =============================================================================
// Command Tests
// =============================================================================

#[test]
fn test_client_command_serialization() {
    let command = ClientCommand {
        controller: Some(ControllerCommand {
            command: "play".to_string(),
            volume: None,
            mute: None,
        }),
    };

    let message = Message::ClientCommand(command);
    let json = encode_message(&message).unwrap();

    assert!(json.contains("\"type\":\"client/command\""));
    assert!(json.contains("\"command\":\"play\""));
}

#[test]
fn test_client_command_volume() {
    let command = ClientCommand {
        controller: Some(ControllerCommand {
            command: "volume".to_string(),
            volume: Some(50),
            mute: None,
        }),
    };

    let message = Message::ClientCommand(command);
    let json = encode_message(&message).unwrap();

    assert!(json.contains("\"volume\":50"));
}

// =============================================================================
// Stream Control Tests
// =============================================================================

#[test]
fn test_stream_end_deserialization() {
    let json = r#"{
        "type": "stream/end",
        "payload": {
            "roles": ["player@v1"]
        }
    }"#;

    let message: Message = decode_message(json).unwrap();

    match message {
        Message::StreamEnd(end) => {
            assert_eq!(end.roles, Some(vec!["player@v1".to_string()]));
        }
        _ => panic!("Expected StreamEnd"),
    }
}

#[test]
fn test_stream_clear_deserialization() {
    let json = r#"{
        "type": "stream/clear",
        "payload": {}
    }"#;

    let message: Message = decode_message(json).unwrap();

    match message {
        Message::StreamClear(clear) => {
            assert!(clear.roles.is_none());
        }
        _ => panic!("Expected StreamClear"),
    }
}

// =============================================================================
// Group Tests
// =============================================================================

#[test]
fn test_group_update_deserialization() {
    let json = r#"{
        "type": "group/update",
        "payload": {
            "playback_state": "playing",
            "group_id": "living-room",
            "group_name": "Living Room"
        }
    }"#;

    let message: Message = decode_message(json).unwrap();

    match message {
        Message::GroupUpdate(update) => {
            assert_eq!(update.playback_state, Some(PlaybackState::Playing));
            assert_eq!(update.group_id, Some("living-room".to_string()));
            assert_eq!(update.group_name, Some("Living Room".to_string()));
        }
        _ => panic!("Expected GroupUpdate"),
    }
}

#[test]
fn test_playback_state_variants() {
    // Test all playback state variants
    let states = [
        (r#""playing""#, PlaybackState::Playing),
        (r#""paused""#, PlaybackState::Paused),
        (r#""stopped""#, PlaybackState::Stopped),
    ];

    for (json_val, expected) in states {
        let parsed: PlaybackState =
            PlaybackState::from_json(&parse_json(json_val).unwrap()).unwrap();
        assert_eq!(parsed, expected);
    }
}

// =============================================================================
// Goodbye Tests
// =============================================================================

#[test]
fn test_client_goodbye_serialization() {
    let goodbye = ClientGoodbye {
        reason: GoodbyeReason::AnotherServer,
    };

    let message = Message::ClientGoodbye(goodbye);
    let json = encode_message(&message).unwrap();

    assert!(json.contains("\"type\":\"client/goodbye\""));
    assert!(json.contains("\"reason\":\"another_server\""));
}

#[test]
fn test_goodbye_reason_variants() {
    let reasons = [
        (r#""another_server""#, GoodbyeReason::AnotherServer),
        (r#""shutdown""#, GoodbyeReason::Shutdown),
        (r#""restart""#, GoodbyeReason::Restart),
        (r#""user_request""#, GoodbyeReason::UserRequest),
    ];

    for (json_val, expected) in reasons {
        let parsed: GoodbyeReason =
            GoodbyeReason::from_json(&parse_json(json_val).unwrap()).unwrap();
        assert_eq!(parsed, expected);
    }
}

// =============================================================================
// Repeat Mode Tests
// =============================================================================

#[test]
fn test_repeat_mode_variants() {
    let modes = [
        (r#""off""#, RepeatMode::Off),
        (r#""one""#, RepeatMode::One),
        (r#""all""#, RepeatMode::All),
    ];

    for (json_val, expected) in modes {
        let parsed: RepeatMode = RepeatMode::from_json(&parse_json(json_val).unwrap()).unwrap();
        assert_eq!(parsed, expected);
    }
}

// =============================================================================
// Wire names
// =============================================================================

#[test]
fn message_types_on_the_wire() {
    let names = [
        (MessageKind::ClientHello, "client/hello"),
        (MessageKind::ServerHello, "server/hello"),
        (MessageKind::ClientTime, "client/time"),
        (MessageKind::ServerTime, "server/time"),
        (MessageKind::ClientState, "client/state"),
        (MessageKind::ServerState, "server/state"),
        (MessageKind::ClientCommand, "client/command"),
        (MessageKind::ServerCommand, "server/command"),
        (MessageKind::StreamStart, "stream/start"),
        (MessageKind::StreamEnd, "stream/end"),
        (MessageKind::StreamClear, "stream/clear"),
        (MessageKind::StreamRequestFormat, "stream/request-format"),
        (MessageKind::GroupUpdate, "group/update"),
        (MessageKind::ClientGoodbye, "client/goodbye"),
    ];
    for (kind, name) in names {
        assert_eq!(kind.as_wire(), name);
        assert_eq!(MessageKind::from_wire(name), Some(kind));
    }
    assert_eq!(MessageKind::from_wire("client/Hello"), None);
    assert_eq!(MessageKind::from_wire("stream/request_format"), None);
    assert_eq!(MessageKind::from_wire(""), None);
}

#[test]
fn enum_values_on_the_wire() {
    assert_eq!(ConnectionReason::Discovery.as_wire(), "discovery");
    assert_eq!(ConnectionReason::Playback.as_wire(), "playback");
    assert_eq!(ConnectionReason::from_wire("playback"), Some(ConnectionReason::Playback));
    assert_eq!(ConnectionReason::from_wire("Playback"), None);
    assert_eq!(PlayerSyncState::Synchronized.as_wire(), "synchronized");
    assert_eq!(PlayerSyncState::Error.as_wire(), "error");
    assert_eq!(PlayerSyncState::from_wire("error"), Some(PlayerSyncState::Error));
    assert_eq!(PlaybackState::Playing.as_wire(), "playing");
    assert_eq!(PlaybackState::Paused.as_wire(), "paused");
    assert_eq!(PlaybackState::Stopped.as_wire(), "stopped");
    assert_eq!(RepeatMode::Off.as_wire(), "off");
    assert_eq!(RepeatMode::One.as_wire(), "one");
    assert_eq!(RepeatMode::All.as_wire(), "all");
    assert_eq!(RepeatMode::from_wire("none"), None);
    assert_eq!(GoodbyeReason::AnotherServer.as_wire(), "another_server");
    assert_eq!(GoodbyeReason::Shutdown.as_wire(), "shutdown");
    assert_eq!(GoodbyeReason::Restart.as_wire(), "restart");
    assert_eq!(GoodbyeReason::UserRequest.as_wire(), "user_request");
    assert_eq!(GoodbyeReason::from_wire("user-request"), None);
    assert!(PlaybackState::from_json(&Json::Int(1)).is_none());
    assert!(PlaybackState::from_json(&Json::Str("gone".to_string())).is_none());
}

// =============================================================================
// Exact texts
// =============================================================================

#[test]
fn messages_are_written_in_member_order() {
    let time = Message::ClientTime(ClientTime { client_transmitted: 1_700_000_000_000_000 });
    assert_eq!(time.wire_type(), "client/time");
    assert_eq!(time.kind(), MessageKind::ClientTime);
    assert_eq!(
        encode_message(&time).unwrap(),
        r#"{"type":"client/time","payload":{"client_transmitted":1700000000000000}}"#
    );
    let state = Message::ClientState(ClientState {
        player: Some(PlayerState {
            state: PlayerSyncState::Synchronized,
            volume: Some(100),
            muted: Some(false),
        }),
    });
    assert_eq!(
        encode_message(&state).unwrap(),
        r#"{"type":"client/state","payload":{"player":{"state":"synchronized","volume":100,"muted":false}}}"#
    );
    let hello = Message::ClientHello(ClientHello {
        client_id: "c".to_string(),
        name: "n".to_string(),
        version: 1,
        supported_roles: vec!["player@v1".to_string()],
        device_info: None,
        player_v1_support: None,
        artwork_v1_support: Some(ArtworkV1Support { channels: vec![0, 3] }),
        visualizer_v1_support: Some(VisualizerV1Support { buffer_capacity: 7 }),
    });
    assert_eq!(
        encode_message(&hello).unwrap(),
        r#"{"type":"client/hello","payload":{"client_id":"c","name":"n","version":1,"supported_roles":["player@v1"],"artwork@v1_support":{"channels":[0,3]},"visualizer@v1_support":{"buffer_capacity":7}}}"#
    );
}

#[test]
fn absent_members_are_left_out() {
    let state = Message::ClientState(ClientState { player: None });
    assert_eq!(encode_message(&state).unwrap(), r#"{"type":"client/state","payload":{}}"#);
    let command = Message::ClientCommand(ClientCommand {
        controller: Some(ControllerCommand {
            command: "mute".to_string(),
            volume: None,
            mute: Some(true),
        }),
    });
    let text = encode_message(&command).unwrap();
    assert!(!text.contains("volume"));
    assert!(text.contains("\"mute\":true"));
}

#[test]
fn json_text_passes_through_the_parser() {
    let tree = parse_json(r#"{"b":[1,-2,true,null,"x"],"a":{"c":1.5}}"#).unwrap();
    match &tree {
        Json::Object(members) => {
            assert_eq!(members.len(), 2);
            assert_eq!(members[0].key, "b");
            assert_eq!(members[1].key, "a");
        }
        _ => panic!("expected an object"),
    }
    assert!(tree.is_object());
    assert!(!tree.is_null());
    match tree.get("b").unwrap().as_array() {
        Some(items) => {
            assert_eq!(items.len(), 5);
            assert_eq!(items[0].as_i64(), Some(1));
            assert_eq!(items[0].as_u8(), Some(1));
            assert_eq!(items[1].as_i64(), Some(-2));
            assert_eq!(items[1].as_u8(), None);
            assert_eq!(items[1].as_u32(), None);
            assert_eq!(items[2].as_bool(), Some(true));
            assert!(items[3].is_null());
            assert_eq!(items[4].as_str(), Some("x"));
            assert_eq!(items[4].as_string(), Some("x".to_string()));
        }
        None => panic!("expected a list"),
    }
    assert!(tree.get("missing").is_none());
    assert!(tree.get("a").unwrap().get("c").is_some());
    assert_eq!(print_json(&tree).unwrap(), r#"{"b":[1,-2,true,null,"x"],"a":{"c":1.5}}"#);
    assert_eq!(parse_json("{").unwrap_err(), Error::MalformedMessage);
    assert_eq!(parse_json("").unwrap_err(), Error::MalformedMessage);
    // of two members with one name the last one counts
    let twice = parse_json(r#"{"a":1,"a":2}"#).unwrap();
    assert_eq!(twice.get("a").unwrap().as_i64(), Some(2));
    let built = Json::Object(vec![
        Member { key: "a".to_string(), value: Json::Int(1) },
        Member { key: "a".to_string(), value: Json::Int(2) },
    ]);
    assert_eq!(built.get("a").unwrap().as_i64(), Some(2));
    assert_eq!(print_json(&Json::text("q\"")).unwrap(), r#""q\"""#);
    assert_eq!(print_json(&Json::Real("2.5e3".to_string())).unwrap(), "2500.0");
    // a number whose text is no number cannot be written, wherever it stands
    assert_eq!(print_json(&Json::Real("nonsense".to_string())).unwrap_err(), Error::Unencodable);
    assert_eq!(print_json(&Json::Real("[1]".to_string())).unwrap_err(), Error::Unencodable);
    assert_eq!(print_json(&Json::Real(String::new())).unwrap_err(), Error::Unencodable);
    let nested = Json::Object(vec![Member {
        key: "a".to_string(),
        value: Json::Array(vec![Json::Int(1), Json::Real("1.5x".to_string())]),
    }]);
    assert_eq!(print_json(&nested).unwrap_err(), Error::Unencodable);
    assert_eq!(print_json(&Json::Real("-0.25".to_string())).unwrap(), "-0.25");
    assert_eq!(
        print_json(&Number::Int(-4).to_json()).unwrap(),
        "-4"
    );
    assert_eq!(Number::from_json(&Json::Int(9)), Some(Number::Int(9)));
    assert_eq!(Number::from_json(&Json::Bool(true)), None);
    // larger than fits 64 bits with a sign: kept as written
    match parse_json("18446744073709551615").unwrap() {
        Json::Real(text) => assert_eq!(text, "18446744073709551615"),
        _ => panic!("expected a number kept as text"),
    }
}

// =============================================================================
// Failures
// =============================================================================

#[test]
fn unknown_type_is_a_recoverable_failure() {
    let e = decode_message(r#"{"type":"server/surprise","payload":{}}"#).unwrap_err();
    assert_eq!(e, Error::UnknownMessageType);
    assert_eq!(e.kind(), ErrorKind::Decode);
    assert!(!e.is_fatal());
    assert!(matches!(
        event_of_text(r#"{"type":"server/surprise","payload":{}}"#),
        Event::UnknownType
    ));
}

#[test]
fn malformed_text_is_refused() {
    let texts = [
        "not json",
        "[]",
        "42",
        r#"{"payload":{}}"#,
        r#"{"type":7,"payload":{}}"#,
        r#"{"type":"stream/clear"}"#,
        r#"{"type":"stream/clear","payload":[]}"#,
        r#"{"type":"stream/clear","payload":{"roles":"player@v1"}}"#,
        r#"{"type":"stream/clear","payload":{"roles":["player@v1",3]}}"#,
        r#"{"type":"client/time","payload":{}}"#,
        r#"{"type":"client/time","payload":{"client_transmitted":"now"}}"#,
        r#"{"type":"client/time","payload":{"client_transmitted":1.5}}"#,
        r#"{"type":"client/time","payload":{"client_transmitted":null}}"#,
        r#"{"type":"client/time","payload":{"client_transmitted":9223372036854775808}}"#,
        r#"{"type":"client/goodbye","payload":{"reason":"bored"}}"#,
        r#"{"type":"server/state","payload":{"controller":{"supported_commands":[],"volume":256,"muted":false}}}"#,
        r#"{"type":"server/state","payload":{"controller":{"supported_commands":[],"volume":-1,"muted":false}}}"#,
        r#"{"type":"server/state","payload":{"metadata":{"timestamp":1,"year":4294967296}}}"#,
        r#"{"type":"server/hello","payload":{"server_id":"s","name":"n","version":1,"active_roles":[]}}"#,
    ];
    for text in texts {
        let e = decode_message(text).unwrap_err();
        assert_eq!(e, Error::MalformedMessage, "{}", text);
        assert_eq!(e.kind(), ErrorKind::Protocol);
        assert!(matches!(event_of_text(text), Event::Malformed));
    }
}

#[test]
fn null_and_unknown_members_are_passed_over() {
    let text = r#"{"extra":1,"type":"group/update","payload":{"group_id":null,"group_name":"Den","colour":"red"}}"#;
    match decode_message(text).unwrap() {
        Message::GroupUpdate(update) => {
            assert_eq!(update.playback_state, None);
            assert_eq!(update.group_id, None);
            assert_eq!(update.group_name, Some("Den".to_string()));
        }
        _ => panic!("expected group/update"),
    }
    // the order of type and payload does not matter
    let swapped = r#"{"payload":{"client_transmitted":5},"type":"client/time"}"#;
    match event_of_text(swapped) {
        Event::Message(Message::ClientTime(time)) => assert_eq!(time.client_transmitted, 5),
        _ => panic!("expected client/time"),
    }
    let limits = r#"{"type":"server/state","payload":{"metadata":{"timestamp":-9223372036854775808,"year":4294967295},"controller":{"supported_commands":[],"volume":255,"muted":true}}}"#;
    match decode_message(limits).unwrap() {
        Message::ServerState(state) => {
            let metadata = state.metadata.unwrap();
            assert_eq!(metadata.timestamp, i64::MIN);
            assert_eq!(metadata.year, Some(u32::MAX));
            assert_eq!(state.controller.unwrap().volume, 255);
        }
        _ => panic!("expected server/state"),
    }
}

// =============================================================================
// Round trips
// =============================================================================

fn every_kind() -> Vec<Message> {
    vec![
        Message::ClientHello(ClientHello {
            client_id: "id \"quoted\" \u{e9}".to_string(),
            name: "Player".to_string(),
            version: 1,
            supported_roles: vec!["player@v1".to_string(), "artwork@v1".to_string()],
            device_info: Some(DeviceInfo {
                product_name: Some("P".to_string()),
                manufacturer: None,
                software_version: Some("0.1.0".to_string()),
            }),
            player_v1_support: Some(PlayerV1Support {
                supported_formats: vec![
                    AudioFormatSpec {
                        codec: "pcm".to_string(),
                        channels: 2,
                        sample_rate: 48000,
                        bit_depth: 24,
                    },
                    AudioFormatSpec {
                        codec: "pcm".to_string(),
                        channels: 1,
                        sample_rate: 44100,
                        bit_depth: 16,
                    },
                ],
                buffer_capacity: 100,
                supported_commands: vec!["play".to_string(), "pause".to_string()],
            }),
            artwork_v1_support: Some(ArtworkV1Support { channels: vec![0, 1, 2, 3] }),
            visualizer_v1_support: Some(VisualizerV1Support { buffer_capacity: u32::MAX }),
        }),
        Message::ClientHello(ClientHello {
            client_id: String::new(),
            name: String::new(),
            version: 0,
            supported_roles: vec![],
            device_info: None,
            player_v1_support: None,
            artwork_v1_support: None,
            visualizer_v1_support: None,
        }),
        Message::ServerHello(ServerHello {
            server_id: "server-456".to_string(),
            name: "Test Server".to_string(),
            version: 1,
            active_roles: vec!["player@v1".to_string()],
            connection_reason: ConnectionReason::Discovery,
        }),
        Message::ClientTime(ClientTime { client_transmitted: i64::MAX }),
        Message::ServerTime(ServerTime {
            client_transmitted: -1,
            server_received: 0,
            server_transmitted: i64::MIN,
        }),
        Message::ClientState(ClientState {
            player: Some(PlayerState {
                state: PlayerSyncState::Error,
                volume: Some(0),
                muted: None,
            }),
        }),
        Message::ServerState(ServerState {
            metadata: Some(MetadataState {
                timestamp: 1234567890,
                title: Some("Test Song".to_string()),
                artist: None,
                album: Some("Test Album".to_string()),
                artwork_url: Some("http://example/a.png".to_string()),
                year: Some(2024),
                track: Some("3/12".to_string()),
                progress: Some(TrackProgress {
                    position: 60000000,
                    duration: 180000000,
                    playback_speed: Some(Number::Real("0.5".to_string())),
                }),
                repeat: Some(RepeatMode::All),
                shuffle: Some(true),
            }),
            controller: Some(ControllerState {
                supported_commands: vec!["play".to_string()],
                volume: 75,
                muted: false,
            }),
        }),
        Message::ServerState(ServerState {
            metadata: Some(MetadataState {
                timestamp: 0,
                title: None,
                artist: None,
                album: None,
                artwork_url: None,
                year: None,
                track: None,
                progress: Some(TrackProgress {
                    position: 0,
                    duration: 0,
                    playback_speed: Some(Number::Int(1)),
                }),
                repeat: None,
                shuffle: None,
            }),
            controller: None,
        }),
        Message::ServerCommand(ServerCommand {
            player: Some(PlayerCommand {
                command: "volume".to_string(),
                volume: Some(255),
                mute: Some(false),
            }),
        }),
        Message::ClientCommand(ClientCommand { controller: None }),
        Message::StreamStart(StreamStart {
            player: Some(StreamPlayerConfig {
                codec: "pcm".to_string(),
                sample_rate: 48000,
                channels: 2,
                bit_depth: 16,
                codec_header: Some("AAEC".to_string()),
            }),
            artwork: Some(StreamArtworkConfig { channels: vec![1] }),
            visualizer: Some(StreamVisualizerConfig {}),
        }),
        Message::StreamEnd(StreamEnd { roles: Some(vec![]) }),
        Message::StreamClear(StreamClear { roles: Some(vec!["player@v1".to_string()]) }),
        Message::StreamRequestFormat(StreamRequestFormat {
            player: Some(PlayerFormatRequest {
                codec: Some("pcm".to_string()),
                channels: None,
                sample_rate: Some(96000),
                bit_depth: Some(24),
            }),
            artwork: Some(ArtworkFormatRequest {
                channel: 2,
                source: None,
                format: Some("png".to_string()),
                media_width: Some(640),
                media_height: None,
            }),
        }),
        Message::GroupUpdate(GroupUpdate {
            playback_state: Some(PlaybackState::Paused),
            group_id: None,
            group_name: Some("Living Room".to_string()),
        }),
        Message::ClientGoodbye(ClientGoodbye { reason: GoodbyeReason::UserRequest }),
    ]
}

#[test]
fn every_message_is_read_back_from_its_tree() {
    for message in every_kind() {
        let tree = message.to_json();
        let back = Message::from_json(&tree).unwrap();
        assert_eq!(format!("{:?}", back), format!("{:?}", message));
        assert_eq!(back.kind(), message.kind());
    }
}

#[test]
fn every_message_is_read_back_from_its_text() {
    for message in every_kind() {
        let text = encode_message(&message).unwrap();
        let back = decode_message(&text).unwrap();
        assert_eq!(format!("{:?}", back), format!("{:?}", message));
        // and the text is stable
        assert_eq!(encode_message(&back).unwrap(), text);
    }
}

#[test]
fn parts_are_read_back_on_their_own() {
    let spec = AudioFormatSpec {
        codec: "pcm".to_string(),
        channels: 2,
        sample_rate: 48000,
        bit_depth: 24,
    };
    let tree = spec.to_json();
    assert_eq!(
        print_json(&tree).unwrap(),
        r#"{"codec":"pcm","channels":2,"sample_rate":48000,"bit_depth":24}"#
    );
    let back = AudioFormatSpec::from_json(&tree).unwrap();
    assert_eq!(format!("{:?}", back), format!("{:?}", spec));
    let list = AudioFormatSpec::list_to_json(&vec![spec.clone(), spec.clone()]);
    assert_eq!(AudioFormatSpec::list_from_json(&list).unwrap().len(), 2);
    assert!(AudioFormatSpec::list_from_json(&tree).is_none());
    assert!(AudioFormatSpec::from_json(&Json::Null).is_none());
    let time = ServerTime { client_transmitted: 1, server_received: 2, server_transmitted: 3 };
    assert_eq!(ServerTime::from_json(&time.to_json()), Some(time));
    assert_eq!(StreamVisualizerConfig::from_json(&Json::Array(vec![])), None);
    assert_eq!(
        StreamVisualizerConfig::from_json(&parse_json("{\"x\":1}").unwrap()),
        Some(StreamVisualizerConfig {})
    );
}

#[test]
fn message_with_a_number_that_is_none_cannot_be_written() {
    let state = |speed: Number| {
        Message::ServerState(ServerState {
            metadata: Some(MetadataState {
                timestamp: 0,
                title: None,
                artist: None,
                album: None,
                artwork_url: None,
                year: None,
                track: None,
                progress: Some(TrackProgress {
                    position: 1,
                    duration: 2,
                    playback_speed: Some(speed),
                }),
                repeat: None,
                shuffle: None,
            }),
            controller: None,
        })
    };
    let e = encode_message(&state(Number::Real("fast".to_string()))).unwrap_err();
    assert_eq!(e, Error::Unencodable);
    assert_eq!(e.kind(), ErrorKind::Protocol);
    assert_eq!(
        encode_message(&state(Number::Real("1.25".to_string()))).unwrap(),
        r#"{"type":"server/state","payload":{"metadata":{"timestamp":0,"progress":{"position":1,"duration":2,"playback_speed":1.25}}}}"#
    );
    assert_eq!(
        encode_message(&state(Number::Int(2))).unwrap(),
        r#"{"type":"server/state","payload":{"metadata":{"timestamp":0,"progress":{"position":1,"duration":2,"playback_speed":2}}}}"#
    );
}
