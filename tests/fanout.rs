use minitop::fanout::{Broadcaster, SamplerAction, SamplerState, SubscribeError, SubscriberMode};
use minitop::metrics::InterfacePolicy;
use minitop::resources::{MetricsReading, SystemInfo, SystemResources};

/// A metrics source that only counts how often it is refreshed.
struct CountingSource {
    refreshes: usize,
}

impl CountingSource {
    fn refresh(&mut self) -> MetricsReading {
        self.refreshes += 1;
        MetricsReading {
            cpu: Some(vec![1000]),
            ram: None,
            swap: None,
            disks: None,
            temperatures: None,
            interfaces: None,
            processes: None,
        }
    }
}

/// One sampler decision, acted on as the sampler task would.
fn run_tick(b: &mut Broadcaster, info: &mut SystemInfo, src: &mut CountingSource, elapsed: bool) -> SamplerAction {
    let action = b.next_action(elapsed);
    if action == SamplerAction::Refresh {
        info.update_info(src.refresh());
        assert!(b.publish(info.sys_resources.clone()));
    }
    action
}

#[test]
fn unsubscribing_all_stops_refreshes() {
    let mut info = SystemInfo::new(InterfacePolicy::Loopback, 10);
    let mut b = Broadcaster::new(SystemResources::new(10));
    let mut src = CountingSource { refreshes: 0 };
    let mut handles = Vec::new();
    for i in 0..5 {
        let mode = if i % 2 == 0 { SubscriberMode::Push } else { SubscriberMode::Pull };
        let s = b.subscribe(mode).unwrap();
        assert_eq!(s.start_sampler, i == 0);
        handles.push(s.handle);
    }
    assert_eq!(b.state(), SamplerState::Sampling);
    assert_eq!(run_tick(&mut b, &mut info, &mut src, false), SamplerAction::Refresh);
    assert_eq!(run_tick(&mut b, &mut info, &mut src, false), SamplerAction::Wait);
    assert_eq!(run_tick(&mut b, &mut info, &mut src, true), SamplerAction::Refresh);
    assert_eq!(src.refreshes, 2);
    for h in handles {
        assert!(b.unsubscribe(h));
    }
    let after_last = src.refreshes;
    for _ in 0..10 {
        assert_eq!(run_tick(&mut b, &mut info, &mut src, true), SamplerAction::Exit);
    }
    assert_eq!(src.refreshes, after_last);
    assert_eq!(b.state(), SamplerState::Idle);
    assert_eq!(b.subscriber_count(), 0);
}

#[test]
fn disconnect_mid_tick_goes_idle_within_one_tick() {
    let mut info = SystemInfo::new(InterfacePolicy::Loopback, 10);
    let mut b = Broadcaster::new(SystemResources::new(10));
    let mut src = CountingSource { refreshes: 0 };
    let s = b.subscribe(SubscriberMode::Push).unwrap();
    assert!(s.start_sampler);
    // The sampler decides to refresh; while it refreshes, the only
    // subscriber disconnects.
    assert_eq!(b.next_action(false), SamplerAction::Refresh);
    let reading = src.refresh();
    assert!(b.unsubscribe(s.handle));
    info.update_info(reading);
    assert!(b.publish(info.sys_resources.clone()));
    assert_eq!(b.next_action(true), SamplerAction::Exit);
    assert_eq!(b.state(), SamplerState::Idle);
    for _ in 0..5 {
        assert_eq!(run_tick(&mut b, &mut info, &mut src, true), SamplerAction::Exit);
    }
    assert_eq!(src.refreshes, 1);
}

#[test]
fn resubscribe_after_idle_refreshes_at_once() {
    let mut b = Broadcaster::new(SystemResources::new(4));
    let first = b.subscribe(SubscriberMode::Pull).unwrap();
    assert_eq!(b.next_action(false), SamplerAction::Refresh);
    assert!(b.unsubscribe(first.handle));
    assert_eq!(b.next_action(false), SamplerAction::Exit);
    let second = b.subscribe(SubscriberMode::Pull).unwrap();
    assert!(second.start_sampler);
    assert_ne!(second.handle, first.handle);
    assert_eq!(b.next_action(false), SamplerAction::Refresh);
    assert_eq!(b.next_action(false), SamplerAction::Wait);
}

#[test]
fn subscribe_while_sampling_starts_no_second_sampler() {
    let mut b = Broadcaster::new(SystemResources::new(4));
    let first = b.subscribe(SubscriberMode::Push).unwrap();
    let second = b.subscribe(SubscriberMode::Push).unwrap();
    assert!(first.start_sampler);
    assert!(!second.start_sampler);
    // The last subscriber leaves and a new one arrives before the sampler
    // decides again: the running sampler goes on, none is started.
    assert!(b.unsubscribe(first.handle));
    assert!(b.unsubscribe(second.handle));
    let third = b.subscribe(SubscriberMode::Pull).unwrap();
    assert!(!third.start_sampler);
    assert_eq!(b.state(), SamplerState::Sampling);
}

#[test]
fn observed_versions_never_decrease() {
    let mut b = Broadcaster::new(SystemResources::new(4));
    let s = b.subscribe(SubscriberMode::Push).unwrap();
    assert_eq!(s.version, 0);
    let mut seen = vec![b.observe(s.handle).unwrap()];
    let mut snap = SystemResources::new(4);
    for v in [3u64, 1, 5, 5, 4, 9] {
        snap.version = v;
        let before = b.version();
        let taken = b.publish(snap.clone());
        assert_eq!(taken, v > before);
        seen.push(b.observe(s.handle).unwrap());
    }
    assert_eq!(seen, vec![0, 3, 3, 5, 5, 5, 9]);
    for w in seen.windows(2) {
        assert!(w[0] <= w[1]);
    }
    assert_eq!(b.latest().version, 9);
}

#[test]
fn stale_snapshot_is_dropped() {
    let mut b = Broadcaster::new(SystemResources::new(4));
    let mut snap = SystemResources::new(4);
    snap.version = 2;
    assert!(b.publish(snap.clone()));
    snap.version = 2;
    assert!(!b.publish(snap.clone()));
    snap.version = 1;
    assert!(!b.publish(snap));
    assert_eq!(b.version(), 2);
}

#[test]
fn unknown_handle_is_refused() {
    let mut b = Broadcaster::new(SystemResources::new(4));
    assert!(!b.unsubscribe(7));
    assert_eq!(b.observe(7), None);
}

#[test]
fn subscribe_after_shutdown_is_refused() {
    let mut b = Broadcaster::new(SystemResources::new(4));
    b.subscribe(SubscriberMode::Pull).unwrap();
    b.shutdown();
    assert_eq!(b.subscribe(SubscriberMode::Push), Err(SubscribeError::ShutDown));
    assert_eq!(b.state(), SamplerState::Stopped);
    assert_eq!(b.next_action(true), SamplerAction::Exit);
}
