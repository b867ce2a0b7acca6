//! The session state machine: what each event of the transport does to the
//! session, and what the client has to do in answer.

use crate::audio::{AudioFormat, Codec};
use crate::error::Error;
use crate::protocol::codec::{decode_message, spec_decode_message};
use crate::protocol::json::same_text;
use crate::protocol::messages::{
    ClientHello, ClientState, ClientTime, Message, PlayerState, PlayerSyncState,
    ServerTime, StreamPlayerConfig,
};
use vstd::prelude::*;

verus! {

/// Where a session stands.
#[derive(Debug, Clone, Copy, PartialEq, Eq, Structural)]
pub enum Phase {
    /// The transport is being opened.
    Connecting,
    /// The client's hello is sent; the server's is awaited.
    AwaitingServerHello,
    /// The handshake is done and no stream runs.
    Idle,
    /// A stream runs.
    Streaming,
    /// The session is over. No event leads out of this phase.
    Closed,
}

/// The state of a session.
#[derive(Debug, Clone, Copy, PartialEq, Eq, Structural)]
pub struct SessionState {
    /// Where the session stands.
    pub phase: Phase,
    /// Format of the stream that runs.
    pub format: Option<AudioFormat>,
    /// Audio taken in since the stream started or was cleared, in microseconds.
    pub prebuffer_accumulated_us: u64,
    /// Whether as much audio was taken in as playback waits for.
    pub playback_started: bool,
}

impl SessionState {
    /// The state in a given phase with no stream and nothing buffered.
    pub open spec fn at(phase: Phase) -> SessionState {
        SessionState { phase, format: None, prebuffer_accumulated_us: 0, playback_started: false }
    }

    /// What holds of every state that events can lead to: a stream has a
    /// format, and the format is one that the player accepts; outside a
    /// stream there is none.
    pub open spec fn wf(self) -> bool {
        match self.format {
            Some(format) => self.phase == Phase::Streaming && format.wf(),
            None => self.phase != Phase::Streaming,
        }
    }
}

/// What the transport, or the client itself, reports to the session.
#[derive(Debug, Clone)]
pub enum Event {
    /// The transport is open.
    TransportOpen,
    /// A message arrived.
    Message(Message),
    /// A text arrived that is not the record of a message.
    Malformed,
    /// A text arrived that names a type of message that is not known.
    UnknownType,
    /// A frame arrived that carries no message, such as a ping.
    Control,
    /// The server closed the transport.
    ServerClosed,
    /// The transport ended without a word.
    TransportEnded,
    /// The transport failed.
    TransportFailed,
    /// The client says goodbye.
    Goodbye,
}

/// What the client has to do in answer to an event.
#[derive(Debug, Clone)]
pub enum Action {
    /// Nothing.
    Nothing,
    /// Send the client's hello.
    SendHello,
    /// Send the messages of `greeting`, in their order: the client's state,
    /// then the first clock request. From then on send a clock request
    /// every five seconds.
    Greet,
    /// Feed the clock with this answer, stamped with the time of its arrival.
    SyncClock(ServerTime),
    /// Discard what is queued and play the stream of this format.
    StartStream(AudioFormat),
    /// Discard what is queued.
    Flush,
    /// Hand the message to the application; the session has no use for it.
    Forward(Message),
    /// Report a failure that the session survives.
    Reject(Error),
    /// Report the failure that ended the session.
    Fail(Error),
    /// Discard what is queued and stop: the session ended in good order.
    Shutdown,
}

/// Whether a role is among the roles that the client offered.
pub open spec fn role_offered(role: Seq<char>, supported: Seq<String>) -> bool {
    exists|j: int| 0 <= j < supported.len() && role == (#[trigger] supported[j])@
}

/// Whether every role that a server made active is one that the client offered.
pub open spec fn roles_offered(active: Seq<String>, supported: Seq<String>) -> bool {
    forall|i: int| 0 <= i < active.len() ==> role_offered((#[trigger] active[i])@, supported)
}

/// The format that a stream asks for, or why the player cannot play it: the
/// codec must be `pcm`, the bit depth 16 or 24, and there must be a channel
/// and a sample rate.
pub open spec fn spec_stream_format(config: StreamPlayerConfig) -> Result<AudioFormat, Error> {
    if config.codec@ != "pcm"@ {
        Err(Error::UnsupportedCodec)
    } else if config.bit_depth != 16 && config.bit_depth != 24 {
        Err(Error::UnsupportedBitDepth { bit_depth: config.bit_depth })
    } else if config.channels == 0 || config.sample_rate == 0 {
        Err(Error::UnsupportedFormat)
    } else {
        Ok(
            AudioFormat {
                codec: Codec::Pcm,
                sample_rate: config.sample_rate,
                channels: config.channels,
                bit_depth: config.bit_depth,
            },
        )
    }
}

/// The format that a stream asks for, or why the player cannot play it.
pub fn stream_format(config: &StreamPlayerConfig) -> (r: Result<AudioFormat, Error>)
    ensures
        r == spec_stream_format(*config),
        r matches Ok(format) ==> format.wf(),
{
    if !same_text(config.codec.as_str(), "pcm") {
        Err(Error::UnsupportedCodec)
    } else if config.bit_depth != 16 && config.bit_depth != 24 {
        Err(Error::UnsupportedBitDepth { bit_depth: config.bit_depth })
    } else if config.channels == 0 || config.sample_rate == 0 {
        Err(Error::UnsupportedFormat)
    } else {
        Ok(
            AudioFormat {
                codec: Codec::Pcm,
                sample_rate: config.sample_rate,
                channels: config.channels,
                bit_depth: config.bit_depth,
            },
        )
    }
}

/// The event that a text frame is: the message that it stands for, or the
/// way in which it stands for none.
pub fn event_of_text(text: &str) -> (event: Event)
    ensures
        match spec_decode_message(text@) {
            Ok(model) => event matches Event::Message(message) && message@ == model,
            Err(e) => if e == Error::UnknownMessageType {
                event is UnknownType
            } else {
                event is Malformed
            },
        },
{
    match decode_message(text) {
        Ok(message) => Event::Message(message),
        Err(e) => match e {
            Error::UnknownMessageType => Event::UnknownType,
            _ => Event::Malformed,
        },
    }
}

/// The failure that the loss of the transport means during the handshake.
pub open spec fn handshake_loss(event: Event) -> Option<Error> {
    match event {
        Event::ServerClosed => Some(Error::ServerClosed),
        Event::TransportEnded => Some(Error::NoServerHello),
        Event::TransportFailed => Some(Error::Transport),
        _ => None,
    }
}

/// One step of the session: the state after `event`, and the action that
/// the client owes.
///
/// Before the server's hello, the only message that the session accepts is
/// that hello, with no role in it that the client did not offer; any other
/// text ends the session, and frames without a message are passed over.
/// After it, a stream start with a playable audio format starts a stream, or
/// swaps the format of the one that runs; a stream end leads back to idle; a
/// stream clear resets what was buffered; each of the three discards what is
/// queued. A clock answer feeds the clock and changes nothing. A text of an
/// unknown type is reported and changes nothing; a malformed one ends the
/// session. The loss of the transport and the client's goodbye end the
/// session from any phase.
pub open spec fn spec_step(state: SessionState, supported: Seq<String>, event: Event) -> (
    SessionState,
    Action,
) {
    match state.phase {
        Phase::Closed => (state, Action::Nothing),
        Phase::Connecting => match event {
            Event::TransportOpen => (
                SessionState::at(Phase::AwaitingServerHello),
                Action::SendHello,
            ),
            Event::Goodbye => (SessionState::at(Phase::Closed), Action::Shutdown),
            Event::ServerClosed | Event::TransportEnded | Event::TransportFailed => (
                SessionState::at(Phase::Closed),
                Action::Fail(handshake_loss(event)->Some_0),
            ),
            _ => (state, Action::Nothing),
        },
        Phase::AwaitingServerHello => match event {
            Event::Message(Message::ServerHello(hello)) => if roles_offered(
                hello.active_roles@,
                supported,
            ) {
                (SessionState::at(Phase::Idle), Action::Greet)
            } else {
                (SessionState::at(Phase::Closed), Action::Fail(Error::RoleNotOffered))
            },
            Event::Message(_) | Event::UnknownType => (
                SessionState::at(Phase::Closed),
                Action::Fail(Error::UnexpectedMessage),
            ),
            Event::Malformed => (
                SessionState::at(Phase::Closed),
                Action::Fail(Error::MalformedMessage),
            ),
            Event::Goodbye => (SessionState::at(Phase::Closed), Action::Shutdown),
            Event::ServerClosed | Event::TransportEnded | Event::TransportFailed => (
                SessionState::at(Phase::Closed),
                Action::Fail(handshake_loss(event)->Some_0),
            ),
            Event::TransportOpen | Event::Control => (state, Action::Nothing),
        },
        Phase::Idle | Phase::Streaming => match event {
            Event::Message(Message::ServerTime(reply)) => (state, Action::SyncClock(reply)),
            Event::Message(Message::StreamStart(start)) => match start.player {
                Some(config) => match spec_stream_format(config) {
                    Ok(format) => (
                        SessionState {
                            phase: Phase::Streaming,
                            format: Some(format),
                            prebuffer_accumulated_us: 0,
                            playback_started: false,
                        },
                        Action::StartStream(format),
                    ),
                    Err(e) => (state, Action::Reject(e)),
                },
                None => (state, Action::Forward(Message::StreamStart(start))),
            },
            Event::Message(Message::StreamEnd(_)) => (
                SessionState::at(Phase::Idle),
                Action::Flush,
            ),
            Event::Message(Message::StreamClear(_)) => (
                SessionState { prebuffer_accumulated_us: 0, playback_started: false, ..state },
                Action::Flush,
            ),
            Event::Message(message) => (state, Action::Forward(message)),
            Event::Goodbye
            | Event::ServerClosed
            | Event::TransportEnded
            | Event::TransportFailed => (SessionState::at(Phase::Closed), Action::Shutdown),
            Event::Malformed => (
                SessionState::at(Phase::Closed),
                Action::Fail(Error::MalformedMessage),
            ),
            Event::UnknownType => (state, Action::Reject(Error::UnknownMessageType)),
            Event::TransportOpen | Event::Control => (state, Action::Nothing),
        },
    }
}

/// Whether a role is among the roles that a client offered.
pub fn is_role_offered(role: &String, supported: &Vec<String>) -> (found: bool)
    ensures
        found == role_offered(role@, supported@),
{
    let mut j: usize = 0;
    while j < supported.len()
        invariant
            j <= supported@.len(),
            forall|k: int| 0 <= k < j ==> role@ != (#[trigger] supported@[k])@,
        decreases supported@.len() - j,
    {
        if *role == supported[j] {
            return true;
        }
        j = j + 1;
    }
    false
}

/// Whether every role that a server made active is one that the client offered.
pub fn are_roles_offered(active: &Vec<String>, supported: &Vec<String>) -> (all: bool)
    ensures
        all == roles_offered(active@, supported@),
{
    let mut i: usize = 0;
    while i < active.len()
        invariant
            i <= active@.len(),
            forall|k: int|
                0 <= k < i ==> role_offered((#[trigger] active@[k])@, supported@),
        decreases active@.len() - i,
    {
        if !is_role_offered(&active[i], supported) {
            assert(!role_offered(active@[i as int]@, supported@));
            return false;
        }
        i = i + 1;
    }
    true
}

/// The state that a client reports once the handshake is done: it follows
/// the clock, at this volume.
pub fn initial_client_state(volume: u8, muted: bool) -> (message: Message)
    ensures
        message == Message::ClientState(
            ClientState {
                player: Some(
                    PlayerState {
                        state: PlayerSyncState::Synchronized,
                        volume: Some(volume),
                        muted: Some(muted),
                    },
                ),
            },
        ),
{
    Message::ClientState(
        ClientState {
            player: Some(
                PlayerState {
                    state: PlayerSyncState::Synchronized,
                    volume: Some(volume),
                    muted: Some(muted),
                },
            ),
        },
    )
}

/// The clock request of a client whose wall clock reads `now_wall`.
pub fn client_time(now_wall: i64) -> (message: Message)
    ensures
        message == Message::ClientTime(ClientTime { client_transmitted: now_wall }),
{
    Message::ClientTime(ClientTime { client_transmitted: now_wall })
}

/// What a client writes in answer to the server's hello: its state, then
/// its first clock request, and nothing else.
pub fn greeting(volume: u8, muted: bool, now_wall: i64) -> (messages: Vec<Message>)
    ensures
        messages@.len() == 2,
        messages@[0] == Message::ClientState(
            ClientState {
                player: Some(
                    PlayerState {
                        state: PlayerSyncState::Synchronized,
                        volume: Some(volume),
                        muted: Some(muted),
                    },
                ),
            },
        ),
        messages@[1] == Message::ClientTime(ClientTime { client_transmitted: now_wall }),
{
    let mut messages: Vec<Message> = Vec::new();
    messages.push(initial_client_state(volume, muted));
    messages.push(client_time(now_wall));
    messages
}

/// A session of one client.
#[derive(Debug)]
pub struct Session {
    state: SessionState,
    hello: ClientHello,
}

impl Session {
    /// The state of the session.
    pub closed spec fn spec_state(&self) -> SessionState {
        self.state
    }

    /// The roles that the client offers.
    pub closed spec fn spec_supported_roles(&self) -> Seq<String> {
        self.hello.supported_roles@
    }

    /// The hello that the client sends.
    pub closed spec fn spec_hello(&self) -> ClientHello {
        self.hello
    }

    /// What the methods keep.
    pub open spec fn wf(&self) -> bool {
        self.spec_state().wf()
    }

    /// A session that is about to connect, for a client with this hello.
    pub fn new(hello: ClientHello) -> (session: Self)
        ensures
            session.spec_state() == SessionState::at(Phase::Connecting),
            session.spec_hello() == hello,
            session.spec_supported_roles() == hello.supported_roles@,
            session.wf(),
    {
        Session {
            state: SessionState {
                phase: Phase::Connecting,
                format: None,
                prebuffer_accumulated_us: 0,
                playback_started: false,
            },
            hello,
        }
    }

    /// The state of this session.
    pub fn state(&self) -> (state: SessionState)
        ensures
            state == self.spec_state(),
    {
        self.state
    }

    /// Where this session stands.
    pub fn phase(&self) -> (phase: Phase)
        ensures
            phase == self.spec_state().phase,
    {
        self.state.phase
    }

    /// The format of the stream that runs.
    pub fn format(&self) -> (format: Option<AudioFormat>)
        ensures
            format == self.spec_state().format,
    {
        self.state.format
    }

    /// The hello that the client sends once the transport is open.
    pub fn hello(&self) -> (hello: &ClientHello)
        ensures
            *hello == self.spec_hello(),
    {
        &self.hello
    }

    /// Counts audio of `duration_us` microseconds into the prebuffer. Once
    /// the prebuffer holds `threshold_us` microseconds, playback counts as
    /// started. The count stops at the largest 64-bit number.
    pub fn accumulate(&mut self, duration_us: u64, threshold_us: u64)
        requires
            old(self).wf(),
        ensures
            final(self).wf(),
            final(self).spec_hello() == old(self).spec_hello(),
            final(self).spec_supported_roles() == old(self).spec_supported_roles(),
            final(self).spec_state() == spec_accumulate(
                old(self).spec_state(),
                duration_us,
                threshold_us,
            ),
    {
        let total: u64 = self.state.prebuffer_accumulated_us.saturating_add(duration_us);
        self.state.prebuffer_accumulated_us = total;
        if !self.state.playback_started && total >= threshold_us {
            self.state.playback_started = true;
        }
    }

    /// Takes in one event and says what the client has to do.
    pub fn handle(&mut self, event: Event) -> (action: Action)
        requires
            old(self).wf(),
        ensures
            final(self).wf(),
            final(self).spec_hello() == old(self).spec_hello(),
            final(self).spec_supported_roles() == old(self).spec_supported_roles(),
            (final(self).spec_state(), action) == spec_step(
                old(self).spec_state(),
                old(self).spec_supported_roles(),
                event,
            ),
    {
        let closed = SessionState {
            phase: Phase::Closed,
            format: None,
            prebuffer_accumulated_us: 0,
            playback_started: false,
        };
        match self.state.phase {
            Phase::Closed => Action::Nothing,
            Phase::Connecting => match event {
                Event::TransportOpen => {
                    self.state = SessionState {
                        phase: Phase::AwaitingServerHello,
                        format: None,
                        prebuffer_accumulated_us: 0,
                        playback_started: false,
                    };
                    Action::SendHello
                },
                Event::Goodbye => {
                    self.state = closed;
                    Action::Shutdown
                },
                Event::ServerClosed => {
                    self.state = closed;
                    Action::Fail(Error::ServerClosed)
                },
                Event::TransportEnded => {
                    self.state = closed;
                    Action::Fail(Error::NoServerHello)
                },
                Event::TransportFailed => {
                    self.state = closed;
                    Action::Fail(Error::Transport)
                },
                _ => Action::Nothing,
            },
            Phase::AwaitingServerHello => match event {
                Event::Message(Message::ServerHello(hello)) => {
                    if are_roles_offered(&hello.active_roles, &self.hello.supported_roles) {
                        self.state = SessionState {
                            phase: Phase::Idle,
                            format: None,
                            prebuffer_accumulated_us: 0,
                            playback_started: false,
                        };
                        Action::Greet
                    } else {
                        self.state = closed;
                        Action::Fail(Error::RoleNotOffered)
                    }
                },
                Event::Message(_) => {
                    self.state = closed;
                    Action::Fail(Error::UnexpectedMessage)
                },
                Event::UnknownType => {
                    self.state = closed;
                    Action::Fail(Error::UnexpectedMessage)
                },
                Event::Malformed => {
                    self.state = closed;
                    Action::Fail(Error::MalformedMessage)
                },
                Event::Goodbye => {
                    self.state = closed;
                    Action::Shutdown
                },
                Event::ServerClosed => {
                    self.state = closed;
                    Action::Fail(Error::ServerClosed)
                },
                Event::TransportEnded => {
                    self.state = closed;
                    Action::Fail(Error::NoServerHello)
                },
                Event::TransportFailed => {
                    self.state = closed;
                    Action::Fail(Error::Transport)
                },
                Event::TransportOpen => Action::Nothing,
                Event::Control => Action::Nothing,
            },
            Phase::Idle | Phase::Streaming => match event {
                Event::Message(message) => match message {
                    Message::ServerTime(reply) => Action::SyncClock(reply),
                    Message::StreamStart(start) => {
                        if start.player.is_some() {
                            let r = match &start.player {
                                Some(config) => stream_format(config),
                                None => Err(Error::UnsupportedFormat),
                            };
                            match r {
                                Ok(format) => {
                                    self.state = SessionState {
                                        phase: Phase::Streaming,
                                        format: Some(format),
                                        prebuffer_accumulated_us: 0,
                                        playback_started: false,
                                    };
                                    Action::StartStream(format)
                                },
                                Err(e) => Action::Reject(e),
                            }
                        } else {
                            Action::Forward(Message::StreamStart(start))
                        }
                    },
                    Message::StreamEnd(_) => {
                        self.state = SessionState {
                            phase: Phase::Idle,
                            format: None,
                            prebuffer_accumulated_us: 0,
                            playback_started: false,
                        };
                        Action::Flush
                    },
                    Message::StreamClear(_) => {
                        self.state.prebuffer_accumulated_us = 0;
                        self.state.playback_started = false;
                        Action::Flush
                    },
                    other => Action::Forward(other),
                },
                Event::Goodbye => {
                    self.state = closed;
                    Action::Shutdown
                },
                Event::ServerClosed => {
                    self.state = closed;
                    Action::Shutdown
                },
                Event::TransportEnded => {
                    self.state = closed;
                    Action::Shutdown
                },
                Event::TransportFailed => {
                    self.state = closed;
                    Action::Shutdown
                },
                Event::Malformed => {
                    self.state = closed;
                    Action::Fail(Error::MalformedMessage)
                },
                Event::UnknownType => Action::Reject(Error::UnknownMessageType),
                Event::TransportOpen => Action::Nothing,
                Event::Control => Action::Nothing,
            },
        }
    }
}

/// The state after audio of `duration_us` microseconds was counted into the
/// prebuffer: playback counts as started once `threshold_us` are reached.
pub open spec fn spec_accumulate(state: SessionState, duration_us: u64, threshold_us: u64) -> SessionState {
    let total = if state.prebuffer_accumulated_us + duration_us > u64::MAX {
        u64::MAX
    } else {
        (state.prebuffer_accumulated_us + duration_us) as u64
    };
    SessionState {
        prebuffer_accumulated_us: total,
        playback_started: state.playback_started || total >= threshold_us,
        ..state
    }
}

/// A closed session stays closed and asks for nothing.
pub proof fn lemma_closed_is_terminal(state: SessionState, supported: Seq<String>, event: Event)
    requires
        state.phase == Phase::Closed,
    ensures
        spec_step(state, supported, event) == (state, Action::Nothing),
{
}

/// Every step keeps a state well formed.
pub proof fn lemma_step_wf(state: SessionState, supported: Seq<String>, event: Event)
    requires
        state.wf(),
    ensures
        spec_step(state, supported, event).0.wf(),
{
}

/// A clock answer never changes the state of a session that has shaken hands.
pub proof fn lemma_server_time_keeps_state(
    state: SessionState,
    supported: Seq<String>,
    reply: ServerTime,
)
    requires
        state.phase == Phase::Idle || state.phase == Phase::Streaming,
    ensures
        spec_step(state, supported, Event::Message(Message::ServerTime(reply))) == (
            state,
            Action::SyncClock(reply),
        ),
{
}

/// The state that a run of events leads to, taken in from first to last.
pub open spec fn state_after(start: SessionState, supported: Seq<String>, events: Seq<Event>)
    -> SessionState
    decreases events.len(),
{
    if events.len() == 0 {
        start
    } else {
        spec_step(state_after(start, supported, events.drop_last()), supported, events.last()).0
    }
}

/// The action that the `i`-th event of a run draws.
pub open spec fn action_at(
    start: SessionState,
    supported: Seq<String>,
    events: Seq<Event>,
    i: int,
) -> Action
    recommends
        0 <= i < events.len(),
{
    spec_step(state_after(start, supported, events.take(i)), supported, events[i]).1
}

/// The greeting is drawn by the server's hello alone, during the handshake,
/// and leaves the session idle. The client's hello is drawn by the opening
/// of the transport alone, and leaves the session waiting for the server's.
pub proof fn lemma_what_draws_the_hellos(
    state: SessionState,
    supported: Seq<String>,
    event: Event,
)
    ensures
        spec_step(state, supported, event).1 is Greet ==> state.phase
            == Phase::AwaitingServerHello && event is Message && event->Message_0 is ServerHello
            && spec_step(state, supported, event).0.phase == Phase::Idle,
        spec_step(state, supported, event).1 is SendHello ==> state.phase == Phase::Connecting
            && event is TransportOpen && spec_step(state, supported, event).0.phase
            == Phase::AwaitingServerHello,
        spec_step(state, supported, event).0.phase == Phase::AwaitingServerHello ==> state.phase
            == Phase::AwaitingServerHello || spec_step(state, supported, event).1 is SendHello,
{
}

/// Once the handshake is over, it stays over: from idle, streaming and
/// closed no event leads back, and none draws a hello or a greeting.
pub proof fn lemma_handshake_is_over(state: SessionState, supported: Seq<String>, event: Event)
    requires
        state.phase == Phase::Idle || state.phase == Phase::Streaming || state.phase
            == Phase::Closed,
    ensures
        spec_step(state, supported, event).0.phase == Phase::Idle || spec_step(
            state,
            supported,
            event,
        ).0.phase == Phase::Streaming || spec_step(state, supported, event).0.phase
            == Phase::Closed,
        !(spec_step(state, supported, event).1 is Greet),
        !(spec_step(state, supported, event).1 is SendHello),
{
}

/// After the first `i` events of a run the handshake is over; then it is
/// over after the first `j` of them too, `i <= j`.
pub proof fn lemma_handshake_stays_over(
    start: SessionState,
    supported: Seq<String>,
    events: Seq<Event>,
    i: int,
    j: int,
)
    requires
        0 <= i <= j <= events.len(),
        state_after(start, supported, events.take(i)).phase == Phase::Idle || state_after(
            start,
            supported,
            events.take(i),
        ).phase == Phase::Streaming || state_after(start, supported, events.take(i)).phase
            == Phase::Closed,
    ensures
        state_after(start, supported, events.take(j)).phase == Phase::Idle || state_after(
            start,
            supported,
            events.take(j),
        ).phase == Phase::Streaming || state_after(start, supported, events.take(j)).phase
            == Phase::Closed,
    decreases j - i,
{
    if i < j {
        lemma_handshake_stays_over(start, supported, events, i, j - 1);
        assert(events.take(j).drop_last() =~= events.take(j - 1));
        assert(events.take(j).last() == events[j - 1]);
        lemma_handshake_is_over(
            state_after(start, supported, events.take(j - 1)),
            supported,
            events[j - 1],
        );
    }
}

/// The greeting is sent once. Whatever the events of a session, at most one
/// of them draws the greeting: where the `i`-th does, no later one does, and
/// none draws the client's hello again.
pub proof fn lemma_greets_once(
    start: SessionState,
    supported: Seq<String>,
    events: Seq<Event>,
    i: int,
    j: int,
)
    requires
        0 <= i < j < events.len(),
        action_at(start, supported, events, i) is Greet,
    ensures
        !(action_at(start, supported, events, j) is Greet),
        !(action_at(start, supported, events, j) is SendHello),
{
    lemma_what_draws_the_hellos(
        state_after(start, supported, events.take(i)),
        supported,
        events[i],
    );
    assert(events.take(i + 1).drop_last() =~= events.take(i));
    assert(events.take(i + 1).last() == events[i]);
    lemma_handshake_stays_over(start, supported, events, i + 1, j);
    lemma_handshake_is_over(state_after(start, supported, events.take(j)), supported, events[j]);
}

/// The greeting follows the client's hello. In a session that starts by
/// connecting, an event that draws the greeting comes after one that drew
/// the client's hello.
pub proof fn lemma_hello_before_greeting(supported: Seq<String>, events: Seq<Event>, j: int)
    requires
        0 <= j < events.len(),
        action_at(SessionState::at(Phase::Connecting), supported, events, j) is Greet,
    ensures
        exists|i: int|
            0 <= i < j && #[trigger] action_at(
                SessionState::at(Phase::Connecting),
                supported,
                events,
                i,
            ) is SendHello,
{
    let start = SessionState::at(Phase::Connecting);
    lemma_what_draws_the_hellos(state_after(start, supported, events.take(j)), supported, events[j]);
    lemma_waiting_follows_hello(supported, events, j);
}

/// A session that starts by connecting and waits for the server's hello
/// after its first `k` events has sent its own among them.
pub proof fn lemma_waiting_follows_hello(supported: Seq<String>, events: Seq<Event>, k: int)
    requires
        0 <= k <= events.len(),
        state_after(SessionState::at(Phase::Connecting), supported, events.take(k)).phase
            == Phase::AwaitingServerHello,
    ensures
        exists|i: int|
            0 <= i < k && #[trigger] action_at(
                SessionState::at(Phase::Connecting),
                supported,
                events,
                i,
            ) is SendHello,
    decreases k,
{
    let start = SessionState::at(Phase::Connecting);
    if k == 0 {
        assert(events.take(0) =~= Seq::<Event>::empty());
    } else {
        assert(events.take(k).drop_last() =~= events.take(k - 1));
        assert(events.take(k).last() == events[k - 1]);
        let before = state_after(start, supported, events.take(k - 1));
        lemma_what_draws_the_hellos(before, supported, events[k - 1]);
        if spec_step(before, supported, events[k - 1]).1 is SendHello {
            assert(action_at(start, supported, events, k - 1) is SendHello);
        } else {
            lemma_waiting_follows_hello(supported, events, k - 1);
        }
    }
}

} // verus!
