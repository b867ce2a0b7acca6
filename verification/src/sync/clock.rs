//! Estimates where the server loop clock stands on the local clocks, from
//! exchanges of four timestamps.

use crate::sync::time::{micros_since, wall_clock_micros};
use std::time::{Duration, Instant};
use vstd::prelude::*;

verus! {

/// A round trip longer than this many microseconds discards its sample.
pub const MAX_RTT_MICROS: i64 = 100_000;

/// Below this round trip, in microseconds, the synchronisation is good.
pub const GOOD_RTT_MICROS: i64 = 50_000;

/// A clock that has accepted no sample for longer than this many microseconds
/// is stale.
pub const STALE_AFTER_MICROS: i64 = 5_000_000;

/// How far the estimate can be trusted.
#[derive(Debug, Clone, Copy, PartialEq, Eq, Structural)]
pub enum SyncQuality {
    /// The last accepted round trip took less than 50 ms.
    Good,
    /// The last accepted round trip took from 50 to 100 ms.
    Degraded,
    /// Never synchronised, or no sample accepted for more than 5 s.
    Lost,
}

/// What a `ClockSync` knows, over mathematical integers. Times on the local
/// monotonic clock count microseconds from the moment the clock was made.
pub ghost struct ClockState {
    /// Round trip of the last accepted sample.
    pub rtt: Option<int>,
    /// The wall clock instant at which the server loop clock read zero.
    pub epoch: Option<int>,
    /// Local time at which the last sample was accepted.
    pub last_update: Option<int>,
    /// Whether a sample has been accepted.
    pub synced: bool,
}

/// The round trip of an exchange: the time it took as the client saw it,
/// less the time the server held it.
pub open spec fn spec_rtt(t1: int, t2: int, t3: int, t4: int) -> int {
    (t4 - t1) - (t3 - t2)
}

/// Whether a number fits a signed 64-bit integer.
pub open spec fn fits_i64(v: int) -> bool {
    i64::MIN <= v <= i64::MAX
}

/// Whether the round trip of an exchange can be computed in 64 bits.
pub open spec fn sample_fits(t1: i64, t2: i64, t3: i64, t4: i64) -> bool {
    &&& fits_i64(t4 - t1)
    &&& fits_i64(t3 - t2)
    &&& fits_i64(spec_rtt(t1 as int, t2 as int, t3 as int, t4 as int))
}

impl ClockState {
    /// The state before any sample.
    pub open spec fn fresh() -> ClockState {
        ClockState { rtt: None, epoch: None, last_update: None, synced: false }
    }

    /// What holds of every state that samples can lead to: a clock has an
    /// epoch, a round trip and a time of its last sample once it has accepted
    /// a sample, and not before; and no round trip is above 100 ms.
    pub open spec fn wf(self) -> bool {
        &&& self.synced <==> self.epoch is Some
        &&& self.synced <==> self.last_update is Some
        &&& self.synced <==> self.rtt is Some
        &&& self.rtt matches Some(rtt) ==> rtt <= 100_000
    }

    /// Whether a sample is accepted: its round trip is at most 100 ms.
    pub open spec fn accepts(t1: int, t2: int, t3: int, t4: int) -> bool {
        spec_rtt(t1, t2, t3, t4) <= 100_000
    }

    /// The state after one sample, taken when the wall clock read `now_wall`
    /// and the local clock `now_local`. A sample that is not accepted is
    /// discarded: it changes nothing. An accepted one leaves its round trip
    /// and the time at which it was taken. The first accepted sample pins
    /// the epoch, and no later one moves it.
    pub open spec fn step(
        self,
        t1: int,
        t2: int,
        t3: int,
        t4: int,
        now_wall: int,
        now_local: int,
    ) -> ClockState {
        let rtt = spec_rtt(t1, t2, t3, t4);
        if !Self::accepts(t1, t2, t3, t4) {
            self
        } else if self.synced {
            ClockState { rtt: Some(rtt), last_update: Some(now_local), ..self }
        } else {
            ClockState {
                rtt: Some(rtt),
                epoch: Some(now_wall - t2),
                last_update: Some(now_local),
                synced: true,
            }
        }
    }

    /// Whether no sample was accepted in the 5 s before `now_local`.
    pub open spec fn stale_at(self, now_local: int) -> bool {
        match self.last_update {
            Some(last) => now_local - last > 5_000_000,
            None => true,
        }
    }

    /// The quality of a clock that is synchronised and not stale: good where
    /// the last accepted round trip is below 50 ms, degraded else.
    pub open spec fn rtt_quality(self) -> SyncQuality {
        if self.rtt matches Some(rtt) && rtt < 50_000 {
            SyncQuality::Good
        } else {
            SyncQuality::Degraded
        }
    }

    /// The quality at local time `now_local`: lost exactly where the clock
    /// never synchronised or is stale, else what the last accepted round
    /// trip gives.
    pub open spec fn quality_at(self, now_local: int) -> SyncQuality {
        if !self.synced || self.stale_at(now_local) {
            SyncQuality::Lost
        } else {
            self.rtt_quality()
        }
    }

    /// How far in the future of the wall clock instant `now_wall` the server
    /// time `server_micros` lies; negative where it lies in the past.
    pub open spec fn lead(self, server_micros: int, now_wall: int) -> Option<int> {
        match self.epoch {
            Some(epoch) => Some(epoch + server_micros - now_wall),
            None => None,
        }
    }

    /// The local time that stands for the server time `server_micros`, seen
    /// from the moment at which the wall clock reads `now_wall` and the local
    /// clock `now_local`.
    pub open spec fn local_time(self, server_micros: int, now_wall: int, now_local: int) -> Option<
        int,
    > {
        match self.lead(server_micros, now_wall) {
            Some(lead) => Some(now_local + lead),
            None => None,
        }
    }
}

/// Clock synchronisation state of one session.
#[derive(Debug)]
pub struct ClockSync {
    rtt_micros: Option<i64>,
    server_loop_start_unix: Option<i64>,
    last_update: Option<i64>,
    synced: bool,
    origin: Instant,
}

impl View for ClockSync {
    type V = ClockState;

    closed spec fn view(&self) -> ClockState {
        ClockState {
            rtt: match self.rtt_micros {
                Some(v) => Some(v as int),
                None => None,
            },
            epoch: match self.server_loop_start_unix {
                Some(v) => Some(v as int),
                None => None,
            },
            last_update: match self.last_update {
                Some(v) => Some(v as int),
                None => None,
            },
            synced: self.synced,
        }
    }
}

impl ClockSync {
    /// What the methods keep: the state is one that samples can lead to.
    pub open spec fn wf(&self) -> bool {
        self@.wf()
    }

    /// A clock that has seen no sample. Its local time starts to count now.
    pub fn new() -> (clock: Self)
        ensures
            clock@ == ClockState::fresh(),
            clock.wf(),
    {
        ClockSync {
            rtt_micros: None,
            server_loop_start_unix: None,
            last_update: None,
            synced: false,
            origin: Instant::now(),
        }
    }

    /// Whether the round trip of an exchange can be computed in 64 bits.
    pub fn sample_in_range(t1: i64, t2: i64, t3: i64, t4: i64) -> (b: bool)
        ensures
            b == sample_fits(t1, t2, t3, t4),
    {
        match (t4.checked_sub(t1), t3.checked_sub(t2)) {
            (Some(outer), Some(inner)) => outer.checked_sub(inner).is_some(),
            _ => false,
        }
    }

    /// Microseconds on the local monotonic clock since this clock was made.
    pub fn now_micros(&self) -> (now: i64)
        ensures
            now >= 0,
    {
        micros_since(&self.origin)
    }

    /// Takes in one exchange, seen when the wall clock read `now_wall` and
    /// the local clock `now_local`. Returns whether the sample was accepted.
    pub fn apply_sample(
        &mut self,
        t1: i64,
        t2: i64,
        t3: i64,
        t4: i64,
        now_wall: i64,
        now_local: i64,
    ) -> (accepted: bool)
        requires
            old(self).wf(),
            sample_fits(t1, t2, t3, t4),
            !old(self)@.synced ==> fits_i64(now_wall - t2),
        ensures
            final(self).wf(),
            final(self)@ == old(self)@.step(
                t1 as int,
                t2 as int,
                t3 as int,
                t4 as int,
                now_wall as int,
                now_local as int,
            ),
            accepted == ClockState::accepts(t1 as int, t2 as int, t3 as int, t4 as int),
            old(self)@.synced ==> final(self)@.epoch == old(self)@.epoch,
    {
        let rtt: i64 = (t4 - t1) - (t3 - t2);
        if rtt > MAX_RTT_MICROS {
            return false;
        }
        self.rtt_micros = Some(rtt);
        if !self.synced {
            self.server_loop_start_unix = Some(now_wall - t2);
            self.synced = true;
        }
        self.last_update = Some(now_local);
        true
    }

    /// Takes in one exchange, stamped with the clocks as they read now.
    /// Returns whether the sample was accepted. A sample that is not
    /// accepted is discarded and changes nothing. A sample with a round trip
    /// above 100 ms is never accepted. On a clock that is synchronised every
    /// other sample is; the first one is accepted only where the wall clock
    /// can be read and the epoch fits 64 bits.
    pub fn update(&mut self, t1: i64, t2: i64, t3: i64, t4: i64) -> (accepted: bool)
        requires
            old(self).wf(),
            sample_fits(t1, t2, t3, t4),
        ensures
            final(self).wf(),
            accepted ==> ClockState::accepts(t1 as int, t2 as int, t3 as int, t4 as int),
            accepted ==> final(self)@.synced,
            accepted ==> final(self)@.rtt == Some(
                spec_rtt(t1 as int, t2 as int, t3 as int, t4 as int),
            ),
            accepted ==> exists|now_wall: int, now_local: int|
                final(self)@ == #[trigger] old(self)@.step(
                    t1 as int,
                    t2 as int,
                    t3 as int,
                    t4 as int,
                    now_wall,
                    now_local,
                ),
            !accepted ==> final(self)@ == old(self)@,
            old(self)@.synced ==> final(self)@.epoch == old(self)@.epoch,
            old(self)@.synced ==> accepted == ClockState::accepts(
                t1 as int,
                t2 as int,
                t3 as int,
                t4 as int,
            ),
    {
        let now_local: i64 = self.now_micros();
        if self.synced {
            return self.apply_sample(t1, t2, t3, t4, 0, now_local);
        }
        match wall_clock_micros() {
            Some(now_wall) => {
                if now_wall.checked_sub(t2).is_some() {
                    self.apply_sample(t1, t2, t3, t4, now_wall, now_local)
                } else {
                    false
                }
            },
            None => false,
        }
    }

    /// Round trip of the last accepted sample in microseconds.
    pub fn rtt_micros(&self) -> (rtt: Option<i64>)
        ensures
            match (rtt, self@.rtt) {
                (Some(a), Some(b)) => a == b,
                (None, None) => true,
                _ => false,
            },
    {
        self.rtt_micros
    }

    /// The wall clock instant, in microseconds since the Unix epoch, at which
    /// the server loop clock read zero.
    pub fn server_loop_start_unix(&self) -> (epoch: Option<i64>)
        ensures
            match (epoch, self@.epoch) {
                (Some(a), Some(b)) => a == b,
                (None, None) => true,
                _ => false,
            },
    {
        self.server_loop_start_unix
    }

    /// Whether a sample has been accepted.
    pub fn is_synced(&self) -> (synced: bool)
        ensures
            synced == self@.synced,
    {
        self.synced
    }

    /// How many microseconds after the wall clock instant `now_wall` the
    /// server time `server_micros` lies; negative where it lies in the past.
    /// `None` before the first accepted sample.
    pub fn lead_micros(&self, server_micros: i64, now_wall: i64) -> (lead: Option<i128>)
        ensures
            match (lead, self@.lead(server_micros as int, now_wall as int)) {
                (Some(a), Some(b)) => a == b,
                (None, None) => true,
                _ => false,
            },
    {
        match self.server_loop_start_unix {
            Some(epoch) => Some(epoch as i128 + server_micros as i128 - now_wall as i128),
            None => None,
        }
    }

    /// The local time, in microseconds, that stands for the server time
    /// `server_micros`. `None` before the first accepted sample, and where
    /// the local time leaves the 64-bit range. A time in the past is given
    /// as it is, not clamped.
    pub fn server_to_local_micros(&self, server_micros: i64, now_wall: i64, now_local: i64) -> (r:
        Option<i64>)
        ensures
            match self@.local_time(server_micros as int, now_wall as int, now_local as int) {
                Some(t) => if fits_i64(t) {
                    r == Some(t as i64)
                } else {
                    r is None
                },
                None => r is None,
            },
    {
        match self.lead_micros(server_micros, now_wall) {
            Some(lead) => {
                let t: i128 = now_local as i128 + lead;
                if t >= i64::MIN as i128 && t <= i64::MAX as i128 {
                    Some(t as i64)
                } else {
                    None
                }
            },
            None => None,
        }
    }

    /// The instant of the monotonic clock that stands for the server time
    /// `server_micros`, seen from now. `None` before the first accepted
    /// sample, where the wall clock cannot be read, and where the platform
    /// cannot represent the instant.
    pub fn server_to_local_instant(&self, server_micros: i64) -> (instant: Option<Instant>)
        ensures
            self@.epoch is None ==> instant is None,
    {
        if self.server_loop_start_unix.is_none() {
            return None;
        }
        let now_wall: i64 = match wall_clock_micros() {
            Some(v) => v,
            None => {
                return None;
            },
        };
        let now = Instant::now();
        match self.shift_at(server_micros, now_wall) {
            Some(Shift::Later(micros)) => now.checked_add(Duration::from_micros(micros)),
            Some(Shift::Earlier(micros)) => now.checked_sub(Duration::from_micros(micros)),
            None => None,
        }
    }

    /// Whether no sample was accepted in the 5 s before the local time
    /// `now_local`.
    pub fn is_stale_at(&self, now_local: i64) -> (stale: bool)
        ensures
            stale == self@.stale_at(now_local as int),
    {
        match self.last_update {
            Some(last) => now_local as i128 - last as i128 > STALE_AFTER_MICROS as i128,
            None => true,
        }
    }

    /// Whether no sample was accepted in the last 5 s.
    pub fn is_stale(&self) -> (stale: bool)
        ensures
            self@.last_update is None ==> stale,
            exists|now_local: int| stale == #[trigger] self@.stale_at(now_local),
    {
        let now: i64 = self.now_micros();
        let stale = self.is_stale_at(now);
        assert(stale == self@.stale_at(now as int));
        stale
    }

    /// The quality of the synchronisation at the local time `now_local`.
    pub fn quality_at(&self, now_local: i64) -> (q: SyncQuality)
        ensures
            q == self@.quality_at(now_local as int),
    {
        if !self.synced || self.is_stale_at(now_local) {
            return SyncQuality::Lost;
        }
        match self.rtt_micros {
            Some(rtt) => if rtt < GOOD_RTT_MICROS {
                SyncQuality::Good
            } else {
                SyncQuality::Degraded
            },
            None => SyncQuality::Degraded,
        }
    }

    /// The quality of the synchronisation now.
    pub fn quality(&self) -> (q: SyncQuality)
        ensures
            !self@.synced ==> q == SyncQuality::Lost,
            q == SyncQuality::Lost || q == self@.rtt_quality(),
            exists|now_local: int| q == #[trigger] self@.quality_at(now_local),
    {
        let now: i64 = self.now_micros();
        let q = self.quality_at(now);
        assert(q == self@.quality_at(now as int));
        q
    }
}

impl Default for ClockSync {
    fn default() -> (clock: Self)
        ensures
            clock@ == ClockState::fresh(),
            clock.wf(),
    {
        ClockSync::new()
    }
}

/// The quality is lost exactly where the clock never synchronised or is
/// stale. Else it is good where the last accepted round trip is below 50 ms,
/// and degraded from there to 100 ms, the longest round trip that is
/// accepted.
pub proof fn lemma_quality(s: ClockState, now_local: int)
    requires
        s.wf(),
    ensures
        s.quality_at(now_local) == SyncQuality::Lost <==> (!s.synced || s.stale_at(now_local)),
        s.quality_at(now_local) == SyncQuality::Good <==> (s.synced && !s.stale_at(now_local)
            && s.rtt->Some_0 < 50_000),
        s.quality_at(now_local) == SyncQuality::Degraded <==> (s.synced && !s.stale_at(now_local)
            && 50_000 <= s.rtt->Some_0 <= 100_000),
{
}

/// One exchange together with the clock readings at which it was taken in.
pub ghost struct Exchange {
    pub t1: int,
    pub t2: int,
    pub t3: int,
    pub t4: int,
    pub now_wall: int,
    pub now_local: int,
}

/// The state that a run of exchanges leads to, taken in from first to last.
pub open spec fn run(start: ClockState, exchanges: Seq<Exchange>) -> ClockState
    decreases exchanges.len(),
{
    if exchanges.len() == 0 {
        start
    } else {
        let x = exchanges.last();
        run(start, exchanges.drop_last()).step(x.t1, x.t2, x.t3, x.t4, x.now_wall, x.now_local)
    }
}

/// One sample keeps a state well formed, leaves a pinned epoch where it is,
/// and an accepted one leaves the clock synchronised.
pub proof fn lemma_step(s: ClockState, x: Exchange)
    requires
        s.wf(),
    ensures
        s.step(x.t1, x.t2, x.t3, x.t4, x.now_wall, x.now_local).wf(),
        s.synced ==> s.step(x.t1, x.t2, x.t3, x.t4, x.now_wall, x.now_local).epoch == s.epoch,
        s.synced ==> s.step(x.t1, x.t2, x.t3, x.t4, x.now_wall, x.now_local).synced,
        ClockState::accepts(x.t1, x.t2, x.t3, x.t4) ==> s.step(
            x.t1,
            x.t2,
            x.t3,
            x.t4,
            x.now_wall,
            x.now_local,
        ).synced,
        !s.synced && ClockState::accepts(x.t1, x.t2, x.t3, x.t4) ==> s.step(
            x.t1,
            x.t2,
            x.t3,
            x.t4,
            x.now_wall,
            x.now_local,
        ).epoch == Some(x.now_wall - x.t2),
{
}

/// Every run of exchanges keeps a state well formed.
pub proof fn lemma_run_wf(start: ClockState, exchanges: Seq<Exchange>)
    requires
        start.wf(),
    ensures
        run(start, exchanges).wf(),
    decreases exchanges.len(),
{
    if exchanges.len() > 0 {
        lemma_run_wf(start, exchanges.drop_last());
        lemma_step(run(start, exchanges.drop_last()), exchanges.last());
    }
}

/// Epoch pinning. Within one session, once the clock is synchronised no
/// further exchange moves the epoch: the state after the first `i` exchanges
/// and the state after the first `j` of them, `i <= j`, hold the same epoch
/// where the first is synchronised.
pub proof fn lemma_epoch_pinned(start: ClockState, exchanges: Seq<Exchange>, i: int, j: int)
    requires
        start.wf(),
        0 <= i <= j <= exchanges.len(),
        run(start, exchanges.take(i)).synced,
    ensures
        run(start, exchanges.take(j)).synced,
        run(start, exchanges.take(j)).epoch == run(start, exchanges.take(i)).epoch,
    decreases j - i,
{
    if i < j {
        lemma_epoch_pinned(start, exchanges, i, j - 1);
        lemma_run_wf(start, exchanges.take(j - 1));
        assert(exchanges.take(j).drop_last() =~= exchanges.take(j - 1));
        lemma_step(run(start, exchanges.take(j - 1)), exchanges.take(j).last());
    }
}

/// Two accepted samples of one session see the same epoch: where the `i`-th
/// and the `j`-th exchange are both accepted, the state after the one and the
/// state after the other hold the same epoch.
pub proof fn lemma_accepted_updates_share_epoch(
    start: ClockState,
    exchanges: Seq<Exchange>,
    i: int,
    j: int,
)
    requires
        start.wf(),
        0 <= i < j < exchanges.len(),
        ClockState::accepts(exchanges[i].t1, exchanges[i].t2, exchanges[i].t3, exchanges[i].t4),
        ClockState::accepts(exchanges[j].t1, exchanges[j].t2, exchanges[j].t3, exchanges[j].t4),
    ensures
        run(start, exchanges.take(i + 1)).epoch is Some,
        run(start, exchanges.take(j + 1)).epoch == run(start, exchanges.take(i + 1)).epoch,
{
    lemma_run_wf(start, exchanges.take(i));
    assert(exchanges.take(i + 1).drop_last() =~= exchanges.take(i));
    assert(exchanges.take(i + 1).last() == exchanges[i]);
    lemma_step(run(start, exchanges.take(i)), exchanges[i]);
    lemma_run_wf(start, exchanges.take(i + 1));
    lemma_epoch_pinned(start, exchanges, i + 1, j + 1);
}

/// The way from now to an instant, in whole microseconds.
#[derive(Debug, Clone, Copy, PartialEq, Eq, Structural)]
pub enum Shift {
    /// The instant lies so many microseconds after now, or is now.
    Later(u64),
    /// The instant lies so many microseconds before now.
    Earlier(u64),
}

impl ClockState {
    /// The way from the wall clock instant `now_wall` to the server time
    /// `server_micros`: forward by the lead where the lead is not negative,
    /// else backward by as much. `None` before the first accepted sample,
    /// and where the way is longer than 64 bits count.
    pub open spec fn shift(self, server_micros: int, now_wall: int) -> Option<Shift> {
        match self.lead(server_micros, now_wall) {
            Some(lead) => if 0 <= lead <= u64::MAX {
                Some(Shift::Later(lead as u64))
            } else if -(u64::MAX as int) <= lead < 0 {
                Some(Shift::Earlier((-lead) as u64))
            } else {
                None
            },
            None => None,
        }
    }
}

impl ClockSync {
    /// The way from the wall clock instant `now_wall` to the server time
    /// `server_micros`.
    pub fn shift_at(&self, server_micros: i64, now_wall: i64) -> (shift: Option<Shift>)
        ensures
            shift == self@.shift(server_micros as int, now_wall as int),
    {
        match self.lead_micros(server_micros, now_wall) {
            Some(lead) => {
                if lead >= 0 {
                    if lead <= u64::MAX as i128 {
                        Some(Shift::Later(lead as u64))
                    } else {
                        None
                    }
                } else {
                    if -lead <= u64::MAX as i128 {
                        Some(Shift::Earlier((-lead) as u64))
                    } else {
                        None
                    }
                }
            },
            None => None,
        }
    }
}

} // verus!
