//! The player: it holds the session, turns each audio chunk into a buffer
//! with a deadline, and hands the buffer to the scheduler.

use crate::audio::decode::{decode_chunk, sample_values, spec_decode_chunk};
use crate::audio::{clamp_u64, duration_micros, spec_duration_micros, AudioBuffer, AudioFormat, BufferModel};
use crate::error::Error;
use crate::protocol::client::AudioChunk;
use crate::protocol::messages::{ClientHello, ServerTime};
use crate::protocol::session::{
    spec_accumulate, spec_step, Action, Event, Phase, Session, SessionState,
};
use crate::scheduler::{admits, spec_schedule, AudioScheduler};
use crate::sync::clock::{fits_i64, sample_fits, ClockState, ClockSync};
use vstd::prelude::*;

verus! {

/// Least time, in milliseconds, between now and a deadline, unless configured.
pub const DEFAULT_MIN_LEAD_MS: u64 = 200;

/// Audio, in milliseconds, that playback waits for, unless configured.
pub const DEFAULT_START_BUFFER_MS: u64 = 500;

/// Seconds between two clock requests.
pub const SYNC_INTERVAL_SECS: u64 = 5;

/// Milliseconds between two polls of the scheduler.
pub const POLL_PERIOD_MS: u64 = 1;

/// What can be tuned of a player.
#[derive(Debug, Clone, Copy, PartialEq, Eq, Structural)]
pub struct PlayerConfig {
    /// Least time between now and a deadline, in milliseconds.
    pub min_lead_ms: u64,
    /// Audio that playback waits for, in milliseconds.
    pub start_buffer_ms: u64,
}

impl Default for PlayerConfig {
    fn default() -> (config: Self)
        ensures
            config == (PlayerConfig { min_lead_ms: 200, start_buffer_ms: 500 }),
    {
        PlayerConfig { min_lead_ms: DEFAULT_MIN_LEAD_MS, start_buffer_ms: DEFAULT_START_BUFFER_MS }
    }
}

/// A number held within the signed 64-bit range.
pub open spec fn clamp_i64(v: int) -> int {
    if v < i64::MIN {
        i64::MIN as int
    } else if v > i64::MAX {
        i64::MAX as int
    } else {
        v
    }
}

/// Holds a number within the signed 64-bit range.
fn saturate(v: i128) -> (r: i64)
    ensures
        r == clamp_i64(v as int),
{
    if v < i64::MIN as i128 {
        i64::MIN
    } else if v > i64::MAX as i128 {
        i64::MAX
    } else {
        v as i64
    }
}

/// The deadline of a chunk before the floor is applied: the local time that
/// the clock gives for it, or, while the clock gives none, the next deadline
/// of the continuous schedule, which starts `start_buffer_ms` from now.
pub open spec fn tentative_deadline(
    clock_time: Option<int>,
    next_continuous: Option<int>,
    now_local: int,
    config: PlayerConfig,
) -> int {
    match clock_time {
        Some(t) => t,
        None => match next_continuous {
            Some(next) => next,
            None => clamp_i64(now_local + config.start_buffer_ms * 1000),
        },
    }
}

/// The deadline of a chunk: never less than `min_lead_ms` from now.
pub open spec fn deadline(
    clock_time: Option<int>,
    next_continuous: Option<int>,
    now_local: int,
    config: PlayerConfig,
) -> int {
    let tentative = tentative_deadline(clock_time, next_continuous, now_local, config);
    let floor = clamp_i64(now_local + config.min_lead_ms * 1000);
    if tentative <= floor {
        floor
    } else {
        tentative
    }
}

/// The continuous schedule after a chunk of `duration_us` microseconds: it
/// moves on by the chunk where the chunk took its deadline from it, and
/// stays where the clock gave the deadline.
pub open spec fn continuous_after(
    clock_time: Option<int>,
    next_continuous: Option<int>,
    now_local: int,
    duration_us: int,
    config: PlayerConfig,
) -> Option<int> {
    match clock_time {
        Some(_) => next_continuous,
        None => Some(
            clamp_i64(
                tentative_deadline(clock_time, next_continuous, now_local, config) + duration_us,
            ),
        ),
    }
}

/// The local time that a clock gives for a server time, where it fits 64 bits.
pub open spec fn local_time_of(clock: ClockState, server_micros: int, now_wall: int, now_local: int)
    -> Option<int> {
    match clock.local_time(server_micros, now_wall, now_local) {
        Some(t) => if fits_i64(t) {
            Some(t)
        } else {
            None
        },
        None => None,
    }
}

/// The threshold of the prebuffer in microseconds, held at the largest
/// 64-bit number.
pub open spec fn start_threshold(config: PlayerConfig) -> u64 {
    clamp_u64(config.start_buffer_ms * 1000) as u64
}

/// Whether an action discards what the scheduler holds.
pub open spec fn flushes(action: Action) -> bool {
    action is StartStream || action is Flush || action is Shutdown
}

/// Whether a clock answer can be taken in: its round trip can be computed
/// in 64 bits, and so can the epoch where the clock has none yet.
pub open spec fn sample_usable(clock: ClockState, reply: ServerTime, t4: i64, now_wall: i64) -> bool {
    &&& sample_fits(reply.client_transmitted, reply.server_received, reply.server_transmitted, t4)
    &&& clock.synced || fits_i64(now_wall - reply.server_received)
}

/// Feeds a clock with the server's answer to a clock request. The answer
/// arrived when the wall clock read `t4`; it is taken in when the wall clock
/// reads `now_wall` and the local clock `now_local`. An answer that cannot be
/// computed in 64 bits is passed over. Returns whether the sample was
/// accepted.
pub fn sync_clock(
    clock: &mut ClockSync,
    reply: &ServerTime,
    t4: i64,
    now_wall: i64,
    now_local: i64,
) -> (accepted: bool)
    requires
        old(clock).wf(),
    ensures
        final(clock).wf(),
        sample_usable(old(clock)@, *reply, t4, now_wall) ==> final(clock)@ == old(clock)@.step(
            reply.client_transmitted as int,
            reply.server_received as int,
            reply.server_transmitted as int,
            t4 as int,
            now_wall as int,
            now_local as int,
        ) && accepted == ClockState::accepts(
            reply.client_transmitted as int,
            reply.server_received as int,
            reply.server_transmitted as int,
            t4 as int,
        ),
        !sample_usable(old(clock)@, *reply, t4, now_wall) ==> final(clock)@ == old(clock)@
            && !accepted,
{
    if !ClockSync::sample_in_range(
        reply.client_transmitted,
        reply.server_received,
        reply.server_transmitted,
        t4,
    ) {
        return false;
    }
    if !clock.is_synced() && now_wall.checked_sub(reply.server_received).is_none() {
        return false;
    }
    clock.apply_sample(
        reply.client_transmitted,
        reply.server_received,
        reply.server_transmitted,
        t4,
        now_wall,
        now_local,
    )
}

/// What a chunk becomes: the buffer that is handed to the scheduler, and the
/// continuous schedule after it.
pub ghost struct Plan {
    pub buffer: BufferModel,
    pub duration_us: int,
    pub next_continuous: Option<int>,
}

/// What became of a chunk that was decoded.
#[derive(Debug, Clone, Copy, PartialEq, Eq, Structural)]
pub struct Enqueued {
    /// Whether the scheduler took the buffer in.
    pub accepted: bool,
    /// Deadline of the buffer: local time in microseconds.
    pub play_at: i64,
    /// Length of the buffer in microseconds.
    pub duration_us: u64,
}

/// The orchestrator of one session.
#[derive(Debug)]
pub struct Player {
    session: Session,
    config: PlayerConfig,
    next_continuous: Option<i64>,
}

impl Player {
    /// The session of the player.
    pub closed spec fn spec_session(&self) -> Session {
        self.session
    }

    /// The state of the session.
    pub open spec fn spec_state(&self) -> SessionState {
        self.spec_session().spec_state()
    }

    /// The settings of the player.
    pub closed spec fn spec_config(&self) -> PlayerConfig {
        self.config
    }

    /// The next deadline of the continuous schedule, once it has started.
    pub closed spec fn spec_next_continuous(&self) -> Option<int> {
        match self.next_continuous {
            Some(v) => Some(v as int),
            None => None,
        }
    }

    /// What the methods keep.
    pub open spec fn wf(&self) -> bool {
        self.spec_session().wf()
    }

    /// A player that is about to connect.
    pub fn new(hello: ClientHello, config: PlayerConfig) -> (player: Self)
        ensures
            player.wf(),
            player.spec_state() == SessionState::at(Phase::Connecting),
            player.spec_session().spec_hello() == hello,
            player.spec_session().spec_supported_roles() == hello.supported_roles@,
            player.spec_config() == config,
            player.spec_next_continuous() is None,
    {
        Player { session: Session::new(hello), config, next_continuous: None }
    }

    /// A player that goes on with a session that has come as far as it has.
    pub fn with_session(session: Session, config: PlayerConfig) -> (player: Self)
        requires
            session.wf(),
        ensures
            player.wf(),
            player.spec_session() == session,
            player.spec_config() == config,
            player.spec_next_continuous() is None,
    {
        Player { session, config, next_continuous: None }
    }

    /// The session of this player.
    pub fn session(&self) -> (session: &Session)
        ensures
            *session == self.spec_session(),
    {
        &self.session
    }

    /// The settings of this player.
    pub fn config(&self) -> (config: PlayerConfig)
        ensures
            config == self.spec_config(),
    {
        self.config
    }

    /// Whether as much audio was taken in as playback waits for.
    pub fn playback_started(&self) -> (started: bool)
        ensures
            started == self.spec_state().playback_started,
    {
        self.session.state().playback_started
    }

    /// Takes in one event of the session. Where the answer discards what is
    /// queued, the scheduler is emptied here; the start of a stream also
    /// starts the continuous schedule anew. The action is handed back for
    /// what is left to do.
    pub fn on_event(&mut self, event: Event, scheduler: &mut AudioScheduler) -> (action: Action)
        requires
            old(self).wf(),
            old(scheduler).wf(),
        ensures
            final(self).wf(),
            final(scheduler).wf(),
            final(self).spec_config() == old(self).spec_config(),
            final(self).spec_session().spec_hello() == old(self).spec_session().spec_hello(),
            final(self).spec_session().spec_supported_roles() == old(
                self,
            ).spec_session().spec_supported_roles(),
            (final(self).spec_state(), action) == spec_step(
                old(self).spec_state(),
                old(self).spec_session().spec_supported_roles(),
                event,
            ),
            final(scheduler)@ == if flushes(action) {
                Seq::<BufferModel>::empty()
            } else {
                old(scheduler)@
            },
            final(self).spec_next_continuous() == if action is StartStream {
                None
            } else {
                old(self).spec_next_continuous()
            },
    {
        let action = self.session.handle(event);
        match &action {
            Action::StartStream(_) => {
                scheduler.clear();
                self.next_continuous = None;
            },
            Action::Flush => {
                scheduler.clear();
            },
            Action::Shutdown => {
                scheduler.clear();
            },
            _ => {},
        }
        action
    }

    /// What a chunk becomes in a given state, or why it is dropped: outside
    /// a stream there is no format to decode it with; inside one the chunk
    /// must decode. Its deadline is the local time of its server timestamp,
    /// or that of the continuous schedule while the clock gives none, and
    /// never less than the least lead from now.
    pub open spec fn plan(
        state: SessionState,
        next_continuous: Option<int>,
        config: PlayerConfig,
        clock: ClockState,
        timestamp: int,
        data: Seq<u8>,
        now_wall: int,
        now_local: int,
    ) -> Result<Plan, Error> {
        match state.format {
            None => Err(Error::NoStream),
            Some(format) => match spec_decode_chunk(data, format) {
                Err(e) => Err(e),
                Ok(values) => {
                    let duration_us = clamp_u64(spec_duration_micros(values.len() as int, format));
                    let at = local_time_of(clock, timestamp, now_wall, now_local);
                    Ok(
                        Plan {
                            buffer: BufferModel {
                                timestamp,
                                play_at: deadline(at, next_continuous, now_local, config),
                                samples: Seq::new(
                                    values.len(),
                                    |i: int| crate::audio::Sample(values[i] as i32),
                                ),
                                format,
                            },
                            duration_us,
                            next_continuous: continuous_after(
                                at,
                                next_continuous,
                                now_local,
                                duration_us,
                                config,
                            ),
                        },
                    )
                },
            },
        }
    }

    /// Takes in one audio chunk at the moment at which the wall clock reads
    /// `now_wall` and the local clock `now_local`. A chunk that arrives
    /// outside a stream or does not decode is dropped, and nothing changes.
    /// Else its length is counted into the prebuffer and its buffer is handed
    /// to the scheduler. Returns the deadline and the length of the buffer,
    /// and whether the scheduler took it in.
    pub fn on_chunk(
        &mut self,
        chunk: &AudioChunk,
        clock: &ClockSync,
        scheduler: &mut AudioScheduler,
        now_wall: i64,
        now_local: i64,
    ) -> (r: Result<Enqueued, Error>)
        requires
            old(self).wf(),
            old(scheduler).wf(),
        ensures
            final(self).wf(),
            final(scheduler).wf(),
            final(self).spec_config() == old(self).spec_config(),
            final(self).spec_session().spec_hello() == old(self).spec_session().spec_hello(),
            final(self).spec_session().spec_supported_roles() == old(
                self,
            ).spec_session().spec_supported_roles(),
            match Self::plan(
                old(self).spec_state(),
                old(self).spec_next_continuous(),
                old(self).spec_config(),
                clock@,
                chunk.timestamp as int,
                chunk.data@,
                now_wall as int,
                now_local as int,
            ) {
                Err(e) => r == Err::<Enqueued, Error>(e) && final(self).spec_state() == old(
                    self,
                ).spec_state() && final(self).spec_next_continuous() == old(
                    self,
                ).spec_next_continuous() && final(scheduler)@ == old(scheduler)@,
                Ok(plan) => r == Ok::<Enqueued, Error>(
                    Enqueued {
                        accepted: admits(old(scheduler)@, plan.buffer),
                        play_at: plan.buffer.play_at as i64,
                        duration_us: plan.duration_us as u64,
                    },
                )
                    && final(scheduler)@ == spec_schedule(old(scheduler)@, plan.buffer)
                    && final(self).spec_state() == spec_accumulate(
                    old(self).spec_state(),
                    plan.duration_us as u64,
                    start_threshold(old(self).spec_config()),
                ) && final(self).spec_next_continuous() == plan.next_continuous,
            },
    {
        let format: AudioFormat = match self.session.format() {
            Some(format) => format,
            None => {
                return Err(Error::NoStream);
            },
        };
        let samples = match decode_chunk(chunk.data.as_slice(), &format) {
            Ok(samples) => samples,
            Err(e) => {
                return Err(e);
            },
        };
        let ghost values = spec_decode_chunk(chunk.data@, format)->Ok_0;
        let duration_us: u64 = duration_micros(samples.len(), &format);
        let at: Option<i64> = clock.server_to_local_micros(chunk.timestamp, now_wall, now_local);
        let tentative: i64 = match at {
            Some(t) => t,
            None => match self.next_continuous {
                Some(next) => next,
                None => saturate(now_local as i128 + self.config.start_buffer_ms as i128 * 1000),
            },
        };
        if at.is_none() {
            self.next_continuous = Some(saturate(tentative as i128 + duration_us as i128));
        }
        let floor: i64 = saturate(now_local as i128 + self.config.min_lead_ms as i128 * 1000);
        let play_at: i64 = if tentative <= floor {
            floor
        } else {
            tentative
        };
        let threshold: u64 = if self.config.start_buffer_ms <= u64::MAX / 1000 {
            self.config.start_buffer_ms * 1000
        } else {
            u64::MAX
        };
        self.session.accumulate(duration_us, threshold);
        let buffer = AudioBuffer { timestamp: chunk.timestamp, play_at, samples, format };
        proof {
            let plan = Self::plan(
                old(self).spec_state(),
                old(self).spec_next_continuous(),
                old(self).spec_config(),
                clock@,
                chunk.timestamp as int,
                chunk.data@,
                now_wall as int,
                now_local as int,
            )->Ok_0;
            assert(sample_values(buffer@.samples) == values);
            assert(buffer@.samples =~= plan.buffer.samples);
            assert(buffer@ == plan.buffer);
        }
        let accepted = scheduler.schedule(buffer);
        Ok(Enqueued { accepted, play_at, duration_us })
    }
}

} // verus!
