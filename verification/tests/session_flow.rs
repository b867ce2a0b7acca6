use sendspin::audio::{AudioFormat, Codec};
use sendspin::error::Error;
use sendspin::player::{sync_clock, Enqueued, Player, PlayerConfig};
use sendspin::protocol::client::AudioChunk;
use sendspin::protocol::messages::{
    ClientGoodbye, ClientHello, ConnectionReason, GoodbyeReason, GroupUpdate, Message,
    PlayerSyncState, ServerHello, ServerTime, StreamClear, StreamEnd, StreamPlayerConfig,
    StreamStart,
};
use sendspin::protocol::session::{
    are_roles_offered, client_time, greeting, initial_client_state, is_role_offered, stream_format,
    Action, Event, Phase, Session,
};
use sendspin::scheduler::AudioScheduler;
use sendspin::sync::ClockSync;

fn hello(roles: &[&str]) -> ClientHello {
    ClientHello {
        client_id: "test-client".to_string(),
        name: "Test Player".to_string(),
        version: 1,
        supported_roles: roles.iter().map(|r| r.to_string()).collect(),
        device_info: None,
        player_v1_support: None,
        artwork_v1_support: None,
        visualizer_v1_support: None,
    }
}

fn server_hello(roles: &[&str]) -> Message {
    Message::ServerHello(ServerHello {
        server_id: "server".to_string(),
        name: "Test Server".to_string(),
        version: 1,
        active_roles: roles.iter().map(|r| r.to_string()).collect(),
        connection_reason: ConnectionReason::Playback,
    })
}

fn stream_start(codec: &str, sample_rate: u32, channels: u8, bit_depth: u8) -> Message {
    Message::StreamStart(StreamStart {
        player: Some(StreamPlayerConfig {
            codec: codec.to_string(),
            sample_rate,
            channels,
            bit_depth,
            codec_header: None,
        }),
        artwork: None,
        visualizer: None,
    })
}

fn idle_session() -> Session {
    let mut session = Session::new(hello(&["player@v1"]));
    session.handle(Event::TransportOpen);
    session.handle(Event::Message(server_hello(&["player@v1"])));
    assert_eq!(session.phase(), Phase::Idle);
    session
}

fn audio_frame(timestamp: i64, frames: usize) -> AudioChunk {
    // stereo, 16 bit
    AudioChunk { timestamp, data: vec![0u8; frames * 4] }
}

#[test]
fn handshake_happy_path() {
    let mut session = Session::new(hello(&["player@v1"]));
    assert_eq!(session.phase(), Phase::Connecting);
    assert_eq!(session.hello().version, 1);
    assert_eq!(session.hello().supported_roles, vec!["player@v1".to_string()]);

    assert!(matches!(session.handle(Event::TransportOpen), Action::SendHello));
    assert_eq!(session.phase(), Phase::AwaitingServerHello);

    let action = session.handle(Event::Message(server_hello(&["player@v1"])));
    assert!(matches!(action, Action::Greet));
    assert_eq!(session.phase(), Phase::Idle);
    assert_eq!(session.format(), None);

    match initial_client_state(100, false) {
        Message::ClientState(state) => {
            let player = state.player.unwrap();
            assert_eq!(player.state, PlayerSyncState::Synchronized);
            assert_eq!(player.volume, Some(100));
            assert_eq!(player.muted, Some(false));
        }
        _ => panic!("expected client/state"),
    }
    match client_time(1_700_000_000_000_000) {
        Message::ClientTime(time) => assert_eq!(time.client_transmitted, 1_700_000_000_000_000),
        _ => panic!("expected client/time"),
    }
}

#[test]
fn handshake_refuses_a_role_that_was_not_offered() {
    let mut session = Session::new(hello(&["player@v1"]));
    session.handle(Event::TransportOpen);
    let action = session.handle(Event::Message(server_hello(&["player@v1", "artwork@v1"])));
    assert!(matches!(action, Action::Fail(Error::RoleNotOffered)));
    assert_eq!(session.phase(), Phase::Closed);
}

#[test]
fn handshake_accepts_any_subset_of_the_offer() {
    let offered: Vec<String> =
        vec!["player@v1".to_string(), "artwork@v1".to_string(), "visualizer@v1".to_string()];
    assert!(are_roles_offered(&vec![], &offered));
    assert!(are_roles_offered(&vec!["artwork@v1".to_string()], &offered));
    assert!(are_roles_offered(
        &vec!["visualizer@v1".to_string(), "player@v1".to_string()],
        &offered
    ));
    assert!(!are_roles_offered(&vec!["player@v2".to_string()], &offered));
    assert!(!are_roles_offered(&vec!["player@v1".to_string()], &vec![]));
    assert!(is_role_offered(&"player@v1".to_string(), &offered));
    assert!(!is_role_offered(&"player".to_string(), &offered));

    let mut session = Session::new(hello(&["player@v1", "artwork@v1"]));
    session.handle(Event::TransportOpen);
    assert!(matches!(session.handle(Event::Message(server_hello(&[]))), Action::Greet));
    assert_eq!(session.phase(), Phase::Idle);
}

#[test]
fn handshake_ends_on_anything_but_the_hello() {
    let others: Vec<Event> = vec![
        Event::Message(Message::ServerTime(ServerTime {
            client_transmitted: 0,
            server_received: 0,
            server_transmitted: 0,
        })),
        Event::Message(stream_start("pcm", 48_000, 2, 16)),
        Event::UnknownType,
    ];
    for event in others {
        let mut session = Session::new(hello(&["player@v1"]));
        session.handle(Event::TransportOpen);
        let action = session.handle(event);
        assert!(matches!(action, Action::Fail(Error::UnexpectedMessage)));
        assert_eq!(session.phase(), Phase::Closed);
    }
}

#[test]
fn handshake_passes_over_frames_without_a_message() {
    let mut session = Session::new(hello(&["player@v1"]));
    session.handle(Event::TransportOpen);
    assert!(matches!(session.handle(Event::Control), Action::Nothing));
    assert_eq!(session.phase(), Phase::AwaitingServerHello);
    assert!(matches!(
        session.handle(Event::Message(server_hello(&["player@v1"]))),
        Action::Greet
    ));
}

#[test]
fn handshake_fails_when_the_transport_is_lost() {
    let cases: Vec<(Event, Error)> = vec![
        (Event::ServerClosed, Error::ServerClosed),
        (Event::TransportEnded, Error::NoServerHello),
        (Event::TransportFailed, Error::Transport),
    ];
    for (event, expected) in cases {
        let mut session = Session::new(hello(&["player@v1"]));
        session.handle(Event::TransportOpen);
        match session.handle(event.clone()) {
            Action::Fail(e) => {
                assert_eq!(e, expected);
                assert!(e.is_fatal());
            }
            _ => panic!("expected a failure"),
        }
        assert_eq!(session.phase(), Phase::Closed);

        let mut early = Session::new(hello(&["player@v1"]));
        match early.handle(event) {
            Action::Fail(e) => assert_eq!(e, expected),
            _ => panic!("expected a failure"),
        }
        assert_eq!(early.phase(), Phase::Closed);
    }
}

#[test]
fn stream_start_end_and_swap() {
    let mut session = idle_session();
    let action = session.handle(Event::Message(stream_start("pcm", 48_000, 2, 24)));
    let expected = AudioFormat { codec: Codec::Pcm, sample_rate: 48_000, channels: 2, bit_depth: 24 };
    match action {
        Action::StartStream(format) => assert_eq!(format, expected),
        _ => panic!("expected the start of a stream"),
    }
    assert_eq!(session.phase(), Phase::Streaming);
    assert_eq!(session.format(), Some(expected));

    // another start swaps the format
    let swapped = AudioFormat { codec: Codec::Pcm, sample_rate: 44_100, channels: 1, bit_depth: 16 };
    match session.handle(Event::Message(stream_start("pcm", 44_100, 1, 16))) {
        Action::StartStream(format) => assert_eq!(format, swapped),
        _ => panic!("expected the start of a stream"),
    }
    assert_eq!(session.phase(), Phase::Streaming);
    assert_eq!(session.format(), Some(swapped));

    let end = session.handle(Event::Message(Message::StreamEnd(StreamEnd { roles: None })));
    assert!(matches!(end, Action::Flush));
    assert_eq!(session.phase(), Phase::Idle);
    assert_eq!(session.format(), None);
}

#[test]
fn stream_clear_resets_the_prebuffer() {
    let mut session = idle_session();
    session.handle(Event::Message(stream_start("pcm", 48_000, 2, 16)));
    session.accumulate(300_000, 500_000);
    assert_eq!(session.state().prebuffer_accumulated_us, 300_000);
    assert!(!session.state().playback_started);
    session.accumulate(200_000, 500_000);
    assert_eq!(session.state().prebuffer_accumulated_us, 500_000);
    assert!(session.state().playback_started);
    session.accumulate(u64::MAX, 500_000);
    assert_eq!(session.state().prebuffer_accumulated_us, u64::MAX);

    let action = session.handle(Event::Message(Message::StreamClear(StreamClear { roles: None })));
    assert!(matches!(action, Action::Flush));
    assert_eq!(session.phase(), Phase::Streaming);
    assert!(session.format().is_some());
    assert_eq!(session.state().prebuffer_accumulated_us, 0);
    assert!(!session.state().playback_started);
}

#[test]
fn unplayable_stream_is_rejected_and_changes_nothing() {
    let cases: Vec<(Message, Error)> = vec![
        (stream_start("opus", 48_000, 2, 16), Error::UnsupportedCodec),
        (stream_start("PCM", 48_000, 2, 16), Error::UnsupportedCodec),
        (stream_start("pcm", 48_000, 2, 32), Error::UnsupportedBitDepth { bit_depth: 32 }),
        (stream_start("pcm", 48_000, 0, 16), Error::UnsupportedFormat),
        (stream_start("pcm", 0, 2, 16), Error::UnsupportedFormat),
    ];
    for (message, expected) in cases {
        let mut session = idle_session();
        match session.handle(Event::Message(message)) {
            Action::Reject(e) => {
                assert_eq!(e, expected);
                assert!(!e.is_fatal());
            }
            _ => panic!("expected a rejection"),
        }
        assert_eq!(session.phase(), Phase::Idle);
        assert_eq!(session.format(), None);
    }
    let config = StreamPlayerConfig {
        codec: "pcm".to_string(),
        sample_rate: 96_000,
        channels: 6,
        bit_depth: 24,
        codec_header: None,
    };
    assert_eq!(
        stream_format(&config),
        Ok(AudioFormat { codec: Codec::Pcm, sample_rate: 96_000, channels: 6, bit_depth: 24 })
    );
}

#[test]
fn stream_start_without_player_config_is_forwarded() {
    let mut session = idle_session();
    let message = Message::StreamStart(StreamStart { player: None, artwork: None, visualizer: None });
    assert!(matches!(
        session.handle(Event::Message(message)),
        Action::Forward(Message::StreamStart(_))
    ));
    assert_eq!(session.phase(), Phase::Idle);
}

#[test]
fn server_time_feeds_the_clock_and_keeps_the_state() {
    let reply =
        ServerTime { client_transmitted: 1, server_received: 2, server_transmitted: 3 };
    let mut session = idle_session();
    match session.handle(Event::Message(Message::ServerTime(reply))) {
        Action::SyncClock(got) => assert_eq!(got, reply),
        _ => panic!("expected a clock sample"),
    }
    assert_eq!(session.phase(), Phase::Idle);
    session.handle(Event::Message(stream_start("pcm", 48_000, 2, 16)));
    let before = session.state();
    assert!(matches!(
        session.handle(Event::Message(Message::ServerTime(reply))),
        Action::SyncClock(_)
    ));
    assert_eq!(session.state(), before);
}

#[test]
fn other_messages_are_forwarded() {
    let mut session = idle_session();
    let update = Message::GroupUpdate(GroupUpdate {
        playback_state: None,
        group_id: Some("living-room".to_string()),
        group_name: None,
    });
    match session.handle(Event::Message(update)) {
        Action::Forward(Message::GroupUpdate(u)) => {
            assert_eq!(u.group_id, Some("living-room".to_string()))
        }
        _ => panic!("expected the message back"),
    }
    assert!(matches!(
        session.handle(Event::UnknownType),
        Action::Reject(Error::UnknownMessageType)
    ));
    assert!(matches!(session.handle(Event::Control), Action::Nothing));
    assert_eq!(session.phase(), Phase::Idle);
}

#[test]
fn malformed_text_ends_the_session() {
    let mut session = idle_session();
    session.handle(Event::Message(stream_start("pcm", 48_000, 2, 16)));
    assert!(matches!(
        session.handle(Event::Malformed),
        Action::Fail(Error::MalformedMessage)
    ));
    assert_eq!(session.phase(), Phase::Closed);

    let mut early = Session::new(hello(&["player@v1"]));
    early.handle(Event::TransportOpen);
    assert!(matches!(early.handle(Event::Malformed), Action::Fail(Error::MalformedMessage)));
    assert_eq!(early.phase(), Phase::Closed);
}

#[test]
fn handshake_from_texts_on_the_wire() {
    let mut session = Session::new(hello(&["player@v1"]));
    assert!(matches!(session.handle(Event::TransportOpen), Action::SendHello));
    let sent = sendspin::protocol::codec::encode_message(&Message::ClientHello(
        session.hello().clone(),
    ))
    .unwrap();
    assert!(sent.contains("\"supported_roles\":[\"player@v1\"]"));
    assert!(sent.contains("\"version\":1"));
    let reply = r#"{"type":"server/hello","payload":{"server_id":"s","name":"Server","version":1,"active_roles":["player@v1"],"connection_reason":"playback"}}"#;
    let action = session.handle(sendspin::protocol::session::event_of_text(reply));
    assert!(matches!(action, Action::Greet));
    assert_eq!(session.phase(), Phase::Idle);
    let state = sendspin::protocol::codec::encode_message(&initial_client_state(100, false)).unwrap();
    assert_eq!(
        state,
        r#"{"type":"client/state","payload":{"player":{"state":"synchronized","volume":100,"muted":false}}}"#
    );
    let time = sendspin::protocol::codec::encode_message(&client_time(12)).unwrap();
    assert_eq!(time, r#"{"type":"client/time","payload":{"client_transmitted":12}}"#);
}

#[test]
fn close_is_final() {
    for event in [Event::Goodbye, Event::ServerClosed, Event::TransportEnded, Event::TransportFailed]
    {
        let mut session = idle_session();
        session.handle(Event::Message(stream_start("pcm", 48_000, 2, 16)));
        assert!(matches!(session.handle(event), Action::Shutdown));
        assert_eq!(session.phase(), Phase::Closed);
        assert_eq!(session.format(), None);
        assert!(matches!(session.handle(Event::TransportOpen), Action::Nothing));
        assert!(matches!(
            session.handle(Event::Message(server_hello(&["player@v1"]))),
            Action::Nothing
        ));
        assert!(matches!(
            session.handle(Event::Message(Message::ClientGoodbye(ClientGoodbye {
                reason: GoodbyeReason::Shutdown
            }))),
            Action::Nothing
        ));
        assert_eq!(session.phase(), Phase::Closed);
    }
}

#[test]
fn player_config_defaults() {
    let config = PlayerConfig::default();
    assert_eq!(config.min_lead_ms, 200);
    assert_eq!(config.start_buffer_ms, 500);
    assert_eq!(sendspin::player::DEFAULT_MIN_LEAD_MS, 200);
    assert_eq!(sendspin::player::DEFAULT_START_BUFFER_MS, 500);
    assert_eq!(sendspin::player::SYNC_INTERVAL_SECS, 5);
    assert_eq!(sendspin::player::POLL_PERIOD_MS, 1);
}

fn streaming_player(scheduler: &mut AudioScheduler) -> Player {
    let mut player = Player::new(hello(&["player@v1"]), PlayerConfig::default());
    player.on_event(Event::TransportOpen, scheduler);
    player.on_event(Event::Message(server_hello(&["player@v1"])), scheduler);
    player.on_event(Event::Message(stream_start("pcm", 48_000, 2, 16)), scheduler);
    assert_eq!(player.session().phase(), Phase::Streaming);
    player
}

#[test]
fn chunk_outside_a_stream_is_dropped() {
    let mut scheduler = AudioScheduler::new();
    let mut player = Player::new(hello(&["player@v1"]), PlayerConfig::default());
    let clock = ClockSync::new();
    assert_eq!(
        player.on_chunk(&audio_frame(0, 960), &clock, &mut scheduler, 0, 0),
        Err(Error::NoStream)
    );
    assert!(scheduler.is_empty());
}

#[test]
fn chunk_that_does_not_decode_is_dropped_whole() {
    let mut scheduler = AudioScheduler::new();
    let mut player = streaming_player(&mut scheduler);
    let clock = ClockSync::new();
    let chunk = AudioChunk { timestamp: 5, data: vec![0u8; 6] };
    assert_eq!(
        player.on_chunk(&chunk, &clock, &mut scheduler, 0, 0),
        Err(Error::PartialFrame { len: 6, frame_size: 4 })
    );
    assert!(scheduler.is_empty());
    assert_eq!(player.session().state().prebuffer_accumulated_us, 0);
}

#[test]
fn unsynced_chunks_follow_the_continuous_schedule() {
    let mut scheduler = AudioScheduler::new();
    let mut player = streaming_player(&mut scheduler);
    let clock = ClockSync::new();
    let now: i64 = 10_000_000;
    // 960 frames at 48 kHz: 20 ms each
    for k in 0..3 {
        assert_eq!(
            player.on_chunk(&audio_frame(k, 960), &clock, &mut scheduler, 0, now),
            Ok(Enqueued {
                accepted: true,
                play_at: now + 500_000 + 20_000 * k,
                duration_us: 20_000
            })
        );
    }
    // first at now + 500 ms, then 20 ms apart
    assert_eq!(scheduler.next_ready(now + 500_000).unwrap().play_at, now + 500_000);
    assert_eq!(scheduler.next_ready(now + 520_000).unwrap().play_at, now + 520_000);
    assert_eq!(scheduler.next_ready(now + 540_000).unwrap().play_at, now + 540_000);
    assert!(scheduler.is_empty());
}

#[test]
fn synced_chunks_take_the_deadline_of_the_clock() {
    let mut scheduler = AudioScheduler::new();
    let mut player = streaming_player(&mut scheduler);
    let mut clock = ClockSync::new();
    let reply = ServerTime { client_transmitted: 0, server_received: 1_000, server_transmitted: 1_010 };
    // epoch = 5_000_000 - 1_000
    assert!(sync_clock(&mut clock, &reply, 50, 5_000_000, 0));
    let now_wall: i64 = 6_000_000;
    let now_local: i64 = 70_000;
    // server time 1_301_000 is wall 6_300_000: 300 ms ahead
    assert_eq!(
        player.on_chunk(&audio_frame(1_301_000, 960), &clock, &mut scheduler, now_wall, now_local),
        Ok(Enqueued { accepted: true, play_at: now_local + 300_000, duration_us: 20_000 })
    );
    assert_eq!(scheduler.next_deadline(), Some(now_local + 300_000));
}

#[test]
fn deadline_is_never_nearer_than_the_least_lead() {
    let mut scheduler = AudioScheduler::new();
    let mut player = streaming_player(&mut scheduler);
    let mut clock = ClockSync::new();
    let reply = ServerTime { client_transmitted: 0, server_received: 1_000, server_transmitted: 1_010 };
    assert!(sync_clock(&mut clock, &reply, 50, 5_000_000, 0));
    let now_wall: i64 = 6_000_000;
    let now_local: i64 = 70_000;
    // 100 ms ahead only: lifted to 200 ms
    assert_eq!(
        player.on_chunk(&audio_frame(1_101_000, 960), &clock, &mut scheduler, now_wall, now_local),
        Ok(Enqueued { accepted: true, play_at: now_local + 200_000, duration_us: 20_000 })
    );
    assert_eq!(scheduler.next_deadline(), Some(now_local + 200_000));
    // exactly 200 ms ahead stays; in the past is lifted too
    assert_eq!(
        player
            .on_chunk(&audio_frame(1_201_000, 960), &clock, &mut scheduler, now_wall, now_local + 1)
            .map(|e| e.accepted),
        Ok(true)
    );
    assert_eq!(
        player
            .on_chunk(&audio_frame(1_000, 960), &clock, &mut scheduler, now_wall, now_local + 2)
            .map(|e| e.accepted),
        Ok(true)
    );
    let mut out = Vec::new();
    while let Some(b) = scheduler.next_ready(now_local + 200_002) {
        out.push((b.timestamp, b.play_at));
    }
    assert_eq!(
        out,
        vec![
            (1_101_000, now_local + 200_000),
            (1_201_000, now_local + 200_001),
            (1_000, now_local + 200_002)
        ]
    );
}

#[test]
fn prebuffer_counts_every_chunk() {
    let mut scheduler = AudioScheduler::new();
    let mut player = streaming_player(&mut scheduler);
    let clock = ClockSync::new();
    for k in 0..24 {
        assert!(!player.playback_started());
        player.on_chunk(&audio_frame(k, 960), &clock, &mut scheduler, 0, 0).unwrap();
        assert_eq!(player.session().state().prebuffer_accumulated_us, 20_000 * (k as u64 + 1));
    }
    player.on_chunk(&audio_frame(24, 960), &clock, &mut scheduler, 0, 0).unwrap();
    assert_eq!(player.session().state().prebuffer_accumulated_us, 500_000);
    assert!(player.playback_started());
    // a chunk with a timestamp that is queued already is counted but not queued
    assert_eq!(
        player.on_chunk(&audio_frame(24, 960), &clock, &mut scheduler, 0, 0).map(|e| e.accepted),
        Ok(false)
    );
    assert_eq!(scheduler.len(), 25);
}

#[test]
fn stream_events_flush_the_scheduler() {
    let mut scheduler = AudioScheduler::new();
    let mut player = streaming_player(&mut scheduler);
    let clock = ClockSync::new();
    player.on_chunk(&audio_frame(1, 960), &clock, &mut scheduler, 0, 0).unwrap();
    player.on_chunk(&audio_frame(2, 960), &clock, &mut scheduler, 0, 0).unwrap();
    assert_eq!(scheduler.len(), 2);
    let action =
        player.on_event(Event::Message(Message::StreamClear(StreamClear { roles: None })), &mut scheduler);
    assert!(matches!(action, Action::Flush));
    assert!(scheduler.is_empty());
    assert_eq!(player.session().state().prebuffer_accumulated_us, 0);

    player.on_chunk(&audio_frame(3, 960), &clock, &mut scheduler, 0, 0).unwrap();
    // the continuous schedule goes on where it was: 500, 520, then 540 ms
    assert_eq!(scheduler.next_deadline(), Some(540_000));
    player.on_event(Event::Message(stream_start("pcm", 48_000, 2, 16)), &mut scheduler);
    assert!(scheduler.is_empty());
    player.on_chunk(&audio_frame(4, 960), &clock, &mut scheduler, 0, 1_000_000).unwrap();
    // a new stream starts the continuous schedule anew
    assert_eq!(scheduler.next_deadline(), Some(1_500_000));

    player.on_chunk(&audio_frame(5, 960), &clock, &mut scheduler, 0, 1_000_000).unwrap();
    let end = player.on_event(Event::Message(Message::StreamEnd(StreamEnd { roles: None })), &mut scheduler);
    assert!(matches!(end, Action::Flush));
    assert!(scheduler.is_empty());
    assert_eq!(player.session().phase(), Phase::Idle);

    let mut other = AudioScheduler::new();
    let mut closing = streaming_player(&mut other);
    closing.on_chunk(&audio_frame(1, 960), &clock, &mut other, 0, 0).unwrap();
    assert!(matches!(closing.on_event(Event::Goodbye, &mut other), Action::Shutdown));
    assert!(other.is_empty());
    assert_eq!(closing.config(), PlayerConfig::default());
}

#[test]
fn greeting_is_the_state_and_then_the_time() {
    let messages = greeting(100, false, 1_700_000_000_000_000);
    assert_eq!(messages.len(), 2);
    let texts: Vec<String> = messages
        .iter()
        .map(|m| sendspin::protocol::codec::encode_message(m).unwrap())
        .collect();
    assert_eq!(
        texts[0],
        r#"{"type":"client/state","payload":{"player":{"state":"synchronized","volume":100,"muted":false}}}"#
    );
    assert_eq!(
        texts[1],
        r#"{"type":"client/time","payload":{"client_transmitted":1700000000000000}}"#
    );
    match &greeting(7, true, -3)[0] {
        Message::ClientState(state) => {
            let player = state.player.unwrap();
            assert_eq!(player.state, PlayerSyncState::Synchronized);
            assert_eq!(player.volume, Some(7));
            assert_eq!(player.muted, Some(true));
        }
        _ => panic!("expected client/state"),
    }
    match &greeting(7, true, -3)[1] {
        Message::ClientTime(time) => assert_eq!(time.client_transmitted, -3),
        _ => panic!("expected client/time"),
    }
}

#[test]
fn greeting_is_drawn_once_in_a_session() {
    let events = || {
        vec![
            Event::Control,
            Event::TransportOpen,
            Event::TransportOpen,
            Event::Control,
            Event::Message(server_hello(&["player@v1"])),
            Event::Message(server_hello(&["player@v1"])),
            Event::TransportOpen,
            Event::Message(stream_start("pcm", 48_000, 2, 16)),
            Event::Message(server_hello(&[])),
            Event::Message(Message::StreamEnd(StreamEnd { roles: None })),
            Event::Message(server_hello(&["player@v1"])),
            Event::Goodbye,
            Event::TransportOpen,
            Event::Message(server_hello(&["player@v1"])),
        ]
    };
    let mut session = Session::new(hello(&["player@v1"]));
    let mut hellos = Vec::new();
    let mut greetings = Vec::new();
    for (k, event) in events().into_iter().enumerate() {
        match session.handle(event) {
            Action::SendHello => hellos.push(k),
            Action::Greet => greetings.push(k),
            _ => {}
        }
    }
    assert_eq!(hellos, vec![1]);
    assert_eq!(greetings, vec![4]);
    assert_eq!(session.phase(), Phase::Closed);
}
