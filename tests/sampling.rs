use minitop::metrics::{
    cpu_usage_percent, disk_usage, normalize, select_interface, starts_with, DiskReading,
    InterfacePolicy, InterfaceReading, MetricError, NetworkData, ComponentTemperature, ProcessInfo, GB,
};
use minitop::resources::{FieldStatus, MemoryReading, MetricsReading, SystemInfo};

fn iface(name: &str, base: u64) -> InterfaceReading {
    InterfaceReading {
        name: name.to_string(),
        total_received: base,
        received: base + 1,
        total_transmitted: base + 2,
        transmitted: base + 3,
    }
}

fn empty_reading() -> MetricsReading {
    MetricsReading {
        cpu: None,
        ram: None,
        swap: None,
        disks: None,
        temperatures: None,
        interfaces: None,
        processes: None,
    }
}

#[test]
fn normalize_zero_total_is_zero() {
    assert_eq!(normalize(5, 0), 0);
    assert_eq!(normalize(0, 0), 0);
}

#[test]
fn normalize_used_above_total_is_hundred() {
    assert_eq!(normalize(300, 200), 100);
    assert_eq!(normalize(200, 200), 100);
    assert_eq!(normalize(u64::MAX, 1), 100);
}

#[test]
fn normalize_nothing_used_is_zero() {
    assert_eq!(normalize(0, 1000), 0);
}

#[test]
fn normalize_rounds_up_exactly() {
    assert_eq!(normalize(50, 200), 25);
    assert_eq!(normalize(1, 3), 34);
    assert_eq!(normalize(1, 1000), 1);
    assert_eq!(normalize(u64::MAX - 1, u64::MAX), 100);
    for used in 0u64..300 {
        assert!(normalize(used, 250) <= 100);
    }
}

#[test]
fn cpu_mean_divides_before_truncating() {
    assert_eq!(cpu_usage_percent(&vec![5000, 2500]), 37);
    assert_eq!(cpu_usage_percent(&vec![150, 150, 0]), 1);
    assert_eq!(cpu_usage_percent(&vec![9999]), 99);
    assert_eq!(cpu_usage_percent(&vec![10000, 10000]), 100);
}

#[test]
fn cpu_without_cores_is_zero() {
    assert_eq!(cpu_usage_percent(&Vec::new()), 0);
}

#[test]
fn disk_usage_shares_and_free_space() {
    let d = disk_usage(&DiskReading { name: "sda1".to_string(), total_space: 4 * GB, available_space: GB });
    assert_eq!(d.name, "sda1");
    assert_eq!(d.used_space, 7500);
    assert_eq!(d.free_space, 100);
    let half = disk_usage(&DiskReading { name: "x".to_string(), total_space: 3, available_space: 2 });
    assert_eq!(half.used_space, 3333);
    assert_eq!(half.free_space, 0);
}

#[test]
fn disk_usage_of_empty_disk_is_zero() {
    let d = disk_usage(&DiskReading { name: "none".to_string(), total_space: 0, available_space: 0 });
    assert_eq!(d.used_space, 0);
    let odd = disk_usage(&DiskReading { name: "odd".to_string(), total_space: 10, available_space: 20 });
    assert_eq!(odd.used_space, 0);
}

#[test]
fn prefix_matching() {
    assert!(starts_with("eth0", "e"));
    assert!(starts_with("eth0", ""));
    assert!(starts_with("eth0", "eth0"));
    assert!(!starts_with("eth", "eth0"));
    assert!(!starts_with("wlan0", "e"));
}

#[test]
fn loopback_policy_selects_lo_only() {
    let ifs = vec![iface("lo0", 1), iface("eth0", 10), iface("lo", 20)];
    let d = select_interface(&InterfacePolicy::Loopback, &ifs).unwrap();
    assert_eq!(d, NetworkData { total_rx: 20, rx_per_second: 21, total_tx: 22, tx_per_second: 23 });
}

#[test]
fn prefix_policy_selects_first_match() {
    let ifs = vec![iface("wlan0", 1), iface("enp3s0", 10), iface("eth0", 20)];
    let d = select_interface(&InterfacePolicy::Prefix("e".to_string()), &ifs).unwrap();
    assert_eq!(d.total_rx, 10);
    assert_eq!(d.tx_per_second, 13);
}

#[test]
fn no_matching_interface_is_configuration_error() {
    let ifs = vec![iface("wlan0", 1)];
    assert_eq!(
        select_interface(&InterfacePolicy::Prefix("e".to_string()), &ifs),
        Err(MetricError::ConfigurationError)
    );
    assert_eq!(select_interface(&InterfacePolicy::Loopback, &Vec::new()), Err(MetricError::ConfigurationError));
}

#[test]
fn tick_updates_every_supplied_field() {
    let mut info = SystemInfo::new(InterfacePolicy::Loopback, 3);
    let reading = MetricsReading {
        cpu: Some(vec![5000, 2500]),
        ram: Some(MemoryReading { used: 50, total: 200 }),
        swap: Some(MemoryReading { used: 0, total: 0 }),
        disks: Some(vec![DiskReading { name: "sda".to_string(), total_space: 100, available_space: 25 }]),
        temperatures: Some(vec![ComponentTemperature { label: "Composite".to_string(), temperature: 4150 }]),
        interfaces: Some(vec![iface("lo", 5)]),
        processes: Some(vec![ProcessInfo { pid: 1, name: "init".to_string(), memory_usage: 4096, cpu_usage: 12 }]),
    };
    let report = info.update_info(reading);
    assert_eq!(report.cpu, FieldStatus::Updated);
    assert_eq!(report.network, FieldStatus::Updated);
    assert!(!report.new_configuration_error);
    let r = &info.sys_resources;
    assert_eq!(r.version, 1);
    assert_eq!(r.cpu_usage.get_values(), vec![37]);
    assert_eq!(r.ram_memory_usage.get_values(), vec![25]);
    assert_eq!(r.swap_memory_usage.get_values(), vec![0]);
    assert_eq!(r.disk_usage[0].used_space, 7500);
    assert_eq!(r.component_temperature[0].temperature, 4150);
    assert_eq!(r.network_usage.current_value().total_rx, 5);
    assert_eq!(r.process_list[0].name, "init");
}

#[test]
fn unavailable_field_keeps_last_value() {
    let mut info = SystemInfo::new(InterfacePolicy::Loopback, 3);
    let mut first = empty_reading();
    first.ram = Some(MemoryReading { used: 1, total: 4 });
    first.disks = Some(vec![DiskReading { name: "sda".to_string(), total_space: 100, available_space: 50 }]);
    info.update_info(first);
    let report = info.update_info(empty_reading());
    assert_eq!(report.ram, FieldStatus::Failed(MetricError::SourceUnavailable));
    assert_eq!(report.disks, FieldStatus::Failed(MetricError::SourceUnavailable));
    assert_eq!(report.network, FieldStatus::Failed(MetricError::SourceUnavailable));
    assert_eq!(info.sys_resources.version, 2);
    assert_eq!(info.sys_resources.ram_memory_usage.current_value(), 25);
    assert_eq!(info.sys_resources.ram_memory_usage.get_values(), vec![25]);
    assert_eq!(info.sys_resources.disk_usage[0].used_space, 5000);
}

#[test]
fn configuration_error_is_reported_once_and_rest_still_updates() {
    let mut info = SystemInfo::new(InterfacePolicy::Prefix("e".to_string()), 3);
    let mut reading = empty_reading();
    reading.interfaces = Some(vec![iface("wlan0", 1)]);
    reading.cpu = Some(vec![4000]);
    let first = info.update_info(reading.clone());
    assert_eq!(first.network, FieldStatus::Failed(MetricError::ConfigurationError));
    assert!(first.new_configuration_error);
    assert_eq!(first.cpu, FieldStatus::Updated);
    assert_eq!(info.sys_resources.cpu_usage.current_value(), 40);
    assert_eq!(info.sys_resources.network_usage.get_values(), Vec::<NetworkData>::new());
    assert_eq!(info.sys_resources.network_usage.current_value(), NetworkData::zero());
    let second = info.update_info(reading);
    assert_eq!(second.network, FieldStatus::Failed(MetricError::ConfigurationError));
    assert!(!second.new_configuration_error);
    let mut fixed = empty_reading();
    fixed.interfaces = Some(vec![iface("eth0", 9)]);
    let third = info.update_info(fixed);
    assert_eq!(third.network, FieldStatus::Updated);
    assert_eq!(info.sys_resources.network_usage.current_value().total_rx, 9);
}

#[test]
fn no_cores_keeps_last_cpu_value() {
    let mut info = SystemInfo::new(InterfacePolicy::Loopback, 3);
    let mut first = empty_reading();
    first.cpu = Some(vec![4200]);
    info.update_info(first);
    let mut second = empty_reading();
    second.cpu = Some(Vec::new());
    let report = info.update_info(second);
    assert_eq!(report.cpu, FieldStatus::Failed(MetricError::SourceUnavailable));
    assert_eq!(info.sys_resources.cpu_usage.current_value(), 42);
    assert_eq!(info.sys_resources.cpu_usage.get_values(), vec![42]);
}

#[test]
fn new_state_starts_at_zero() {
    let info = SystemInfo::new(InterfacePolicy::Loopback, 6);
    let r = &info.sys_resources;
    assert_eq!(r.cpu_usage.current_value(), 0);
    assert_eq!(r.ram_memory_usage.current_value(), 0);
    assert_eq!(r.swap_memory_usage.current_value(), 0);
    assert_eq!(r.network_usage.current_value(), NetworkData::zero());
    assert_eq!(r.cpu_usage.max_history_length(), 6);
    assert_eq!(r.version, 0);
}
