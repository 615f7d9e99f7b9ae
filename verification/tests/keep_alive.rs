use mqtt_session::keep_alive::KeepAliveScheduler;

#[test]
fn scheduler_fires_at_half_the_keep_alive() {
    assert_eq!(KeepAliveScheduler::new(10).period_seconds(), 5);
    assert_eq!(KeepAliveScheduler::new(11).period_seconds(), 5);
    assert_eq!(KeepAliveScheduler::new(2).period_seconds(), 1);
    assert_eq!(KeepAliveScheduler::new(65535).period_seconds(), 32767);
    assert!(KeepAliveScheduler::new(2).is_running());
}

#[test]
fn keep_alive_under_two_seconds_leaves_no_period() {
    for keep_alive in [0u16, 1] {
        let mut scheduler = KeepAliveScheduler::new(keep_alive);
        assert_eq!(scheduler.period_seconds(), 0);
        assert!(!scheduler.is_running());
        assert_eq!(scheduler.tick(7), None);
        assert_eq!(scheduler.pings_sent(), 0);
        assert_eq!(scheduler.last_ping_sent_at(), None);
    }
}

#[test]
fn every_tick_gives_one_pingreq() {
    let mut scheduler = KeepAliveScheduler::new(10);
    assert_eq!(scheduler.last_ping_sent_at(), None);
    let mut frames = 0u64;
    for tick in 1..=20u64 {
        let now = 1_000 + tick * 5;
        assert_eq!(scheduler.tick(now), Some(vec![0xc0, 0]));
        frames += 1;
        assert_eq!(scheduler.pings_sent(), frames);
        assert_eq!(scheduler.last_ping_sent_at(), Some(now));
    }
    // Ten keep-alive intervals of ten seconds: twenty ticks, five seconds apart.
    assert_eq!(frames, 20);
    assert_eq!(scheduler.last_ping_sent_at(), Some(1_100));
}

#[test]
fn failed_write_stops_the_scheduler_for_good() {
    let mut scheduler = KeepAliveScheduler::new(10);
    assert!(scheduler.tick(5).is_some());
    scheduler.write_failed();
    assert!(!scheduler.is_running());
    assert_eq!(scheduler.tick(10), None);
    assert_eq!(scheduler.tick(15), None);
    assert_eq!(scheduler.pings_sent(), 1);
    assert_eq!(scheduler.last_ping_sent_at(), Some(5));
    assert_eq!(scheduler.period_seconds(), 5);
}
