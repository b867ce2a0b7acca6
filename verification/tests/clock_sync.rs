use sendspin::protocol::messages::ServerTime;
use sendspin::player::sync_clock;
use sendspin::sync::clock::Shift;
use sendspin::sync::time::{micros_since, micros_to_i64, saturating_micros, wall_clock_micros};
use sendspin::sync::{ClockSync, SyncQuality};

#[test]
fn test_clock_sync_rtt_calculation() {
    let mut sync = ClockSync::new();

    // Simulate sync: client sends at 1000µs, server receives at 500µs (server loop time)
    let t1 = 1_000_000; // Client transmitted (Unix µs)
    let t2 = 500_000; // Server received (server loop µs)
    let t3 = 500_010; // Server transmitted (server loop µs)
    let t4 = 1_000_050; // Client received (Unix µs)

    sync.update(t1, t2, t3, t4);

    // RTT = (t4 - t1) - (t3 - t2) = 50 - 10 = 40µs
    assert_eq!(sync.rtt_micros(), Some(40));
}

#[test]
fn test_server_to_local_conversion() {
    let mut sync = ClockSync::new();

    let t1 = 1_000_000;
    let t2 = 500_000;
    let t3 = 500_010;
    let t4 = 1_000_050;

    sync.update(t1, t2, t3, t4);

    // Server loop start = t4 - t3 = 1_000_050 - 500_010 = 500_040 Unix µs
    // Converting server time 520_000 should give us ~520_040 Unix µs
    let local = sync.server_to_local_instant(520_000);
    assert!(local.is_some());
}

#[test]
fn test_sync_quality() {
    let mut sync = ClockSync::new();

    // Good RTT (30µs)
    sync.update(1_000_000, 500_000, 500_010, 1_000_040);
    assert_eq!(sync.quality(), sendspin::sync::SyncQuality::Good);

    // Degraded RTT (75ms = 75,000µs)
    sync.update(2_000_000, 600_000, 600_010, 2_075_010);
    assert_eq!(sync.quality(), sendspin::sync::SyncQuality::Degraded);
}

#[test]
fn fresh_clock_knows_nothing() {
    let sync = ClockSync::new();
    assert_eq!(sync.rtt_micros(), None);
    assert_eq!(sync.server_loop_start_unix(), None);
    assert!(!sync.is_synced());
    assert!(sync.is_stale());
    assert!(sync.is_stale_at(0));
    assert_eq!(sync.quality(), SyncQuality::Lost);
    assert_eq!(sync.quality_at(0), SyncQuality::Lost);
    assert!(sync.server_to_local_instant(0).is_none());
    assert_eq!(sync.server_to_local_micros(0, 0, 0), None);
    assert_eq!(sync.lead_micros(0, 0), None);
    let by_default = ClockSync::default();
    assert!(!by_default.is_synced());
    assert_eq!(by_default.rtt_micros(), None);
}

#[test]
fn first_accepted_sample_pins_the_epoch() {
    let mut sync = ClockSync::new();
    let now_wall = 1_700_000_000_000_000;
    assert!(sync.apply_sample(1_000_000, 500_000, 500_010, 1_000_050, now_wall, 10));
    assert_eq!(sync.rtt_micros(), Some(40));
    assert_eq!(sync.server_loop_start_unix(), Some(now_wall - 500_000));
    assert!(sync.is_synced());

    // A second sample, taken later and with another server time, moves nothing.
    assert!(sync.apply_sample(2_000_000, 600_000, 600_010, 2_000_070, now_wall + 1_000_000, 20));
    assert_eq!(sync.rtt_micros(), Some(60));
    assert_eq!(sync.server_loop_start_unix(), Some(now_wall - 500_000));
}

#[test]
fn epoch_stays_through_accepted_and_discarded_samples() {
    let mut sync = ClockSync::new();
    assert!(sync.apply_sample(0, 100, 110, 50, 5_000, 1));
    let pinned = sync.server_loop_start_unix();
    assert_eq!(pinned, Some(4_900));
    let samples: [(i64, i64, i64, i64); 4] = [
        (10, 200, 210, 90),
        (10, 300, 310, 200_000),
        (20, 400, 405, 60),
        (30, 500, 600, 100_130),
    ];
    for (k, (t1, t2, t3, t4)) in samples.iter().enumerate() {
        sync.apply_sample(*t1, *t2, *t3, *t4, 6_000 + k as i64, 2 + k as i64);
        assert_eq!(sync.server_loop_start_unix(), pinned);
        assert!(sync.is_synced());
    }
}

#[test]
fn high_rtt_sample_is_discarded() {
    let mut sync = ClockSync::new();
    // (t4 - t1) - (t3 - t2) = 150_010 - 10 = 150_000
    assert!(!sync.apply_sample(1_000_000, 500_000, 500_010, 1_150_010, 9_000_000, 5));
    assert!(!sync.is_synced());
    assert_eq!(sync.server_loop_start_unix(), None);
    // the sample is discarded whole: not even its round trip is kept
    assert_eq!(sync.rtt_micros(), None);
    assert_eq!(sync.quality_at(5), SyncQuality::Lost);
    assert!(sync.is_stale_at(5));

    let mut live = ClockSync::new();
    assert!(!live.update(1_000_000, 500_000, 500_010, 1_150_010));
    assert!(!live.is_synced());
    assert_eq!(live.quality(), SyncQuality::Lost);
    assert_eq!(live.rtt_micros(), None);
}

#[test]
fn discarded_sample_keeps_the_round_trip_of_the_last_accepted_one() {
    let mut sync = ClockSync::new();
    assert!(sync.update(1_000_000, 500_000, 500_010, 1_000_050));
    assert_eq!(sync.rtt_micros(), Some(40));
    let epoch = sync.server_loop_start_unix();
    // a round trip of 150 ms
    assert!(!sync.update(2_000_000, 600_000, 600_000, 2_150_000));
    assert_eq!(sync.rtt_micros(), Some(40));
    assert_eq!(sync.server_loop_start_unix(), epoch);
    assert!(sync.is_synced());
    assert_eq!(sync.quality(), SyncQuality::Good);
}

#[test]
fn discarded_sample_leaves_a_synced_clock_as_it_was() {
    let mut sync = ClockSync::new();
    assert!(sync.apply_sample(0, 0, 0, 30, 1_000, 100));
    assert!(!sync.apply_sample(0, 0, 0, 100_001, 2_000, 4_000_000));
    assert_eq!(sync.rtt_micros(), Some(30));
    assert_eq!(sync.server_loop_start_unix(), Some(1_000));
    // The last accepted sample is still the one taken at local time 100.
    assert!(!sync.is_stale_at(5_000_100));
    assert!(sync.is_stale_at(5_000_101));
    assert_eq!(sync.quality_at(200), SyncQuality::Good);
    assert_eq!(sync.quality_at(5_000_100), SyncQuality::Good);
    assert_eq!(sync.quality_at(5_000_101), SyncQuality::Lost);
}

#[test]
fn rtt_bounds() {
    let mut sync = ClockSync::new();
    // exactly 100 ms is still accepted, and the clock is degraded at once
    assert!(sync.apply_sample(0, 0, 0, 100_000, 0, 0));
    assert_eq!(sync.rtt_micros(), Some(100_000));
    assert_eq!(sync.quality_at(0), SyncQuality::Degraded);
    assert!(sync.apply_sample(0, 0, 0, 99_999, 0, 0));
    assert_eq!(sync.quality_at(0), SyncQuality::Degraded);
    assert!(sync.apply_sample(0, 0, 0, 50_000, 0, 0));
    assert_eq!(sync.quality_at(0), SyncQuality::Degraded);
    assert!(sync.apply_sample(0, 0, 0, 49_999, 0, 0));
    assert_eq!(sync.quality_at(0), SyncQuality::Good);
    // one microsecond more than 100 ms is discarded, and the quality stays
    assert!(!sync.apply_sample(0, 0, 0, 100_001, 0, 0));
    assert_eq!(sync.rtt_micros(), Some(49_999));
    assert_eq!(sync.quality_at(0), SyncQuality::Good);
    // a negative round trip is a short one
    assert!(sync.apply_sample(0, 0, 10, 5, 0, 0));
    assert_eq!(sync.rtt_micros(), Some(-5));
    assert_eq!(sync.quality_at(0), SyncQuality::Good);
}

#[test]
fn quality_is_lost_once_stale() {
    let mut sync = ClockSync::new();
    assert!(sync.apply_sample(0, 0, 0, 30, 1_000, 1_000));
    assert_eq!(sync.quality_at(1_000), SyncQuality::Good);
    assert_eq!(sync.quality_at(5_001_000), SyncQuality::Good);
    assert!(!sync.is_stale_at(5_001_000));
    assert_eq!(sync.quality_at(5_001_001), SyncQuality::Lost);
    assert!(sync.is_stale_at(5_001_001));
}

#[test]
fn server_time_translates_to_local_time() {
    let mut sync = ClockSync::new();
    assert!(sync.apply_sample(1_000_000, 500_000, 500_010, 1_000_050, 2_000_000, 0));
    // epoch = 2_000_000 - 500_000
    assert_eq!(sync.server_loop_start_unix(), Some(1_500_000));
    assert_eq!(sync.lead_micros(520_000, 2_000_000), Some(20_000));
    assert_eq!(sync.server_to_local_micros(520_000, 2_000_000, 7_000), Some(27_000));
    // a time in the past is not clamped here
    assert_eq!(sync.lead_micros(400_000, 2_000_000), Some(-100_000));
    assert_eq!(sync.server_to_local_micros(400_000, 2_000_000, 7_000), Some(-93_000));
    // out of the 64-bit range
    assert_eq!(sync.server_to_local_micros(i64::MAX, 0, i64::MAX), None);
    assert_eq!(
        sync.lead_micros(i64::MAX, i64::MIN),
        Some(1_500_000i128 + i64::MAX as i128 - i64::MIN as i128)
    );
}

#[test]
fn sample_range_check() {
    assert!(ClockSync::sample_in_range(1_000_000, 500_000, 500_010, 1_000_050));
    assert!(!ClockSync::sample_in_range(i64::MIN, 0, 0, i64::MAX));
    assert!(!ClockSync::sample_in_range(0, i64::MAX, i64::MIN, 0));
    assert!(!ClockSync::sample_in_range(0, 0, i64::MIN + 1, i64::MAX));
    assert!(ClockSync::sample_in_range(0, 0, 0, i64::MAX));
}

#[test]
fn clock_answers_feed_the_clock() {
    let mut sync = ClockSync::new();
    let reply = ServerTime {
        client_transmitted: 1_000_000,
        server_received: 500_000,
        server_transmitted: 500_010,
    };
    assert!(sync_clock(&mut sync, &reply, 1_000_050, 1_000_060, 42));
    assert_eq!(sync.rtt_micros(), Some(40));
    assert_eq!(sync.server_loop_start_unix(), Some(500_060));

    // An answer whose arithmetic leaves 64 bits is passed over.
    let absurd = ServerTime {
        client_transmitted: i64::MIN,
        server_received: 0,
        server_transmitted: 0,
    };
    assert!(!sync_clock(&mut sync, &absurd, i64::MAX, 1_000_060, 43));
    assert_eq!(sync.rtt_micros(), Some(40));

    let mut fresh = ClockSync::new();
    let far = ServerTime {
        client_transmitted: 0,
        server_received: i64::MIN,
        server_transmitted: i64::MIN,
    };
    assert!(!sync_clock(&mut fresh, &far, 10, 1_000_060, 43));
    assert_eq!(fresh.rtt_micros(), None);
    assert!(!fresh.is_synced());
}

#[test]
fn local_clocks_count_up() {
    let sync = ClockSync::new();
    let a = sync.now_micros();
    let b = sync.now_micros();
    assert!(a >= 0);
    assert!(b >= a);
    let wall = wall_clock_micros().unwrap();
    // later than the first of January 2020
    assert!(wall > 1_577_836_800_000_000);
    assert_eq!(micros_to_i64(5), Some(5));
    assert_eq!(micros_to_i64(i64::MAX as u128), Some(i64::MAX));
    assert_eq!(micros_to_i64(i64::MAX as u128 + 1), None);
}

#[test]
fn update_pins_the_epoch_on_the_live_clock() {
    let mut sync = ClockSync::new();
    let before = wall_clock_micros().unwrap();
    assert!(sync.update(1_000_000, 500_000, 500_010, 1_000_050));
    let after = wall_clock_micros().unwrap();
    let epoch = sync.server_loop_start_unix().unwrap();
    assert!(before - 500_000 <= epoch && epoch <= after - 500_000);
    assert!(sync.update(2_000_000, 600_000, 600_010, 2_000_050));
    assert_eq!(sync.server_loop_start_unix(), Some(epoch));
    assert!(!sync.is_stale());
}

#[test]
fn way_from_now_to_a_server_time() {
    let mut sync = ClockSync::new();
    assert_eq!(sync.shift_at(520_000, 2_000_000), None);
    assert!(sync.apply_sample(1_000_000, 500_000, 500_010, 1_000_050, 2_000_000, 0));
    // epoch = 1_500_000
    assert_eq!(sync.shift_at(520_000, 2_000_000), Some(Shift::Later(20_000)));
    assert_eq!(sync.shift_at(500_000, 2_000_000), Some(Shift::Later(0)));
    assert_eq!(sync.shift_at(400_000, 2_000_000), Some(Shift::Earlier(100_000)));
    assert_eq!(
        sync.shift_at(i64::MAX, 1_500_000),
        Some(Shift::Later(i64::MAX as u64))
    );
    assert_eq!(
        sync.shift_at(i64::MIN, 1_500_000),
        Some(Shift::Earlier(1u64 << 63))
    );
    // further ahead than 64 bits count
    assert_eq!(sync.shift_at(i64::MAX, i64::MIN), None);
    // as far back as this clock can be asked: 2^64 - 1 - 1_500_000
    assert_eq!(
        sync.shift_at(i64::MIN, i64::MAX),
        Some(Shift::Earlier(u64::MAX - 1_500_000))
    );

    // a clock whose epoch lies before 1970 can be asked further back
    let mut early = ClockSync::new();
    assert!(early.apply_sample(0, 10, 10, 0, 0, 0));
    assert_eq!(early.server_loop_start_unix(), Some(-10));
    assert_eq!(early.shift_at(i64::MIN + 11, i64::MAX), Some(Shift::Earlier(u64::MAX - 1)));
    assert_eq!(early.shift_at(i64::MIN + 10, i64::MAX), Some(Shift::Earlier(u64::MAX)));
    assert_eq!(early.shift_at(i64::MIN + 9, i64::MAX), None);
    assert_eq!(early.shift_at(i64::MIN, i64::MAX), None);
}

#[test]
fn instant_lies_ahead_by_the_lead() {
    let mut sync = ClockSync::new();
    assert!(sync.update(1_000_000, 500_000, 500_010, 1_000_050));
    let before = std::time::Instant::now();
    // one second after the server time of the sample
    let ahead = sync.server_to_local_instant(1_500_000).unwrap();
    let lead = ahead.duration_since(before).as_micros();
    assert!(lead <= 1_000_000, "{}", lead);
    assert!(lead > 900_000, "{}", lead);
    // and one in the past lies behind
    let behind = sync.server_to_local_instant(400_000).unwrap();
    assert!(behind < before);
}

#[test]
fn counts_are_held_at_the_largest_number() {
    assert_eq!(saturating_micros(0), 0);
    assert_eq!(saturating_micros(7), 7);
    assert_eq!(saturating_micros(i64::MAX as u128), i64::MAX);
    assert_eq!(saturating_micros(i64::MAX as u128 + 1), i64::MAX);
    assert_eq!(saturating_micros(u128::MAX), i64::MAX);
}

#[test]
fn local_time_moves_on() {
    // read the clocks until a millisecond has passed on each
    let origin = std::time::Instant::now();
    let mut passed = micros_since(&origin);
    while passed < 1_000 && origin.elapsed().as_secs() < 10 {
        let next = micros_since(&origin);
        assert!(next >= passed);
        passed = next;
    }
    assert!(passed >= 1_000, "{}", passed);
    assert!(passed < 11_000_000, "{}", passed);

    let sync = ClockSync::new();
    let mut now = sync.now_micros();
    while now < 1_000 && origin.elapsed().as_secs() < 10 {
        let next = sync.now_micros();
        assert!(next >= now);
        now = next;
    }
    assert!(now >= 1_000, "{}", now);
}

#[test]
fn round_trip_of_a_hundred_milliseconds_is_degraded_on_the_live_clock() {
    let mut sync = ClockSync::new();
    assert!(sync.update(0, 0, 0, 100_000));
    assert_eq!(sync.rtt_micros(), Some(100_000));
    assert_eq!(sync.quality(), SyncQuality::Degraded);
}
