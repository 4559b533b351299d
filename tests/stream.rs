use minitop::fanout::{Broadcaster, SamplerAction, SamplerState, SubscriberMode};
use minitop::encode::push_decimal;
use minitop::history::HistoricalMetric;
use minitop::metrics::{ComponentTemperature, DiskUsageData, NetworkData, ProcessInfo};
use minitop::resources::SystemResources;
use minitop::stream::{encode_resources, shutdown_event, snapshot_event, StreamAction, StreamEvent, StreamPublisher};

fn small_resources() -> SystemResources {
    let mut r = SystemResources::new(2);
    r.version = 7;
    r.cpu_usage.update(12);
    r.ram_memory_usage.update(34);
    r.swap_memory_usage.update(0);
    r.network_usage.update(NetworkData { total_rx: 1, rx_per_second: 2, total_tx: 3, tx_per_second: 4 });
    r.disk_usage = vec![DiskUsageData { name: "sda".to_string(), used_space: 7500, free_space: 100 }];
    r.component_temperature = vec![
        ComponentTemperature { label: "Composite".to_string(), temperature: 4150 },
        ComponentTemperature { label: "cold \"x\"".to_string(), temperature: -250 },
    ];
    r.process_list = vec![ProcessInfo { pid: 42, name: "a\\b\n".to_string(), memory_usage: 0, cpu_usage: 5 }];
    r
}

#[test]
fn decimal_digits() {
    let mut s = String::from("n=");
    push_decimal(&mut s, 0);
    assert_eq!(s, "n=0");
    let mut m = String::new();
    push_decimal(&mut m, u64::MAX);
    assert_eq!(m, "18446744073709551615");
}

#[test]
fn resources_as_json() {
    let json = encode_resources(&small_resources());
    assert_eq!(
        json,
        "{\"version\":7,\"cpu\":12,\"ram\":34,\"swap\":0,\
         \"network\":{\"total_rx\":1,\"rx_per_second\":2,\"total_tx\":3,\"tx_per_second\":4},\
         \"disks\":[{\"name\":\"sda\",\"used_hundredths\":7500,\"free_gb_hundredths\":100}],\
         \"temperatures\":[{\"label\":\"Composite\",\"celsius_hundredths\":4150},\
         {\"label\":\"cold \\\"x\\\"\",\"celsius_hundredths\":-250}],\
         \"processes\":[{\"pid\":42,\"name\":\"a\\\\b\\u000a\",\"memory\":0,\"cpu_hundredths\":5}]}"
    );
}

#[test]
fn empty_resources_as_json() {
    let json = encode_resources(&SystemResources::new(3));
    assert_eq!(
        json,
        "{\"version\":0,\"cpu\":0,\"ram\":0,\"swap\":0,\
         \"network\":{\"total_rx\":0,\"rx_per_second\":0,\"total_tx\":0,\"tx_per_second\":0},\
         \"disks\":[],\"temperatures\":[],\"processes\":[]}"
    );
}

#[test]
fn snapshot_frame_carries_version_as_id() {
    let r = small_resources();
    let frame = snapshot_event(&r);
    assert!(frame.starts_with("id: 7\nevent: snapshot\ndata: {\"version\":7,"));
    assert!(frame.ends_with("]}\n\n"));
    assert_eq!(frame, format!("id: 7\nevent: snapshot\ndata: {}\n\n", encode_resources(&r)));
}

#[test]
fn shutdown_frame_text() {
    assert_eq!(shutdown_event(), "event: shutdown\ndata: {}\n\n");
}

#[test]
fn publisher_streams_until_disconnect() {
    let mut p = StreamPublisher::new(3);
    assert_eq!(p.on_event(StreamEvent::IntervalElapsed), StreamAction::SendSnapshot);
    assert_eq!(p.on_event(StreamEvent::IntervalElapsed), StreamAction::SendSnapshot);
    assert_eq!(p.on_event(StreamEvent::Disconnected), StreamAction::UnsubscribeAndClose);
    assert_eq!(p.on_event(StreamEvent::IntervalElapsed), StreamAction::Ignore);
    assert_eq!(p.on_event(StreamEvent::Shutdown), StreamAction::Ignore);
    assert!(!p.open);
    assert_eq!(p.handle, 3);
}

#[test]
fn shutdown_with_two_push_consumers() {
    let mut b = Broadcaster::new(SystemResources::new(4));
    let a = b.subscribe(SubscriberMode::Push).unwrap();
    let pull = b.subscribe(SubscriberMode::Pull).unwrap();
    let c = b.subscribe(SubscriberMode::Push).unwrap();
    let mut conns = vec![StreamPublisher::new(a.handle), StreamPublisher::new(c.handle)];
    assert_eq!(b.next_action(false), SamplerAction::Refresh);

    let owed = b.shutdown();
    assert_eq!(owed, vec![a.handle, c.handle]);
    assert_ne!(pull.handle, a.handle);
    let mut terminal = vec![0usize; conns.len()];
    let mut sent_after = vec![0usize; conns.len()];
    for (i, conn) in conns.iter_mut().enumerate() {
        for ev in [StreamEvent::Shutdown, StreamEvent::Shutdown, StreamEvent::IntervalElapsed, StreamEvent::Disconnected] {
            match conn.on_event(ev) {
                StreamAction::SendShutdownAndClose => terminal[i] += 1,
                StreamAction::Ignore => {}
                _ => sent_after[i] += 1,
            }
        }
        assert!(!conn.open);
    }
    assert_eq!(terminal, vec![1, 1]);
    assert_eq!(sent_after, vec![0, 0]);
    assert_eq!(b.state(), SamplerState::Stopped);
    assert_eq!(b.next_action(true), SamplerAction::Exit);
    assert_eq!(b.subscriber_count(), 0);
    assert!(!b.unsubscribe(a.handle));
}

#[test]
fn snapshot_history_window_in_state() {
    let mut h: HistoricalMetric<NetworkData> = HistoricalMetric::new(NetworkData::zero(), 1);
    h.update(NetworkData { total_rx: 5, rx_per_second: 0, total_tx: 0, tx_per_second: 0 });
    h.update(NetworkData { total_rx: 6, rx_per_second: 0, total_tx: 0, tx_per_second: 0 });
    assert_eq!(h.get_values().len(), 1);
    assert_eq!(h.get_values()[0].total_rx, 6);
}

#[test]
fn extreme_temperature_encodes_exactly() {
    let mut r = SystemResources::new(1);
    r.component_temperature = vec![ComponentTemperature { label: "\u{1}".to_string(), temperature: i64::MIN }];
    let json = encode_resources(&r);
    assert!(json.contains("{\"label\":\"\\u0001\",\"celsius_hundredths\":-9223372036854775808}"));
}
