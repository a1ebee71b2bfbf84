use worker::system_status::{
    collect_components, collect_disks, collect_network, ComponentReading, ComponentStat,
    DiskReading, MemStat, NetworkReading, NetworkStat, Readings, StaticStat, SystemStatusManager,
};

fn sensor(label: &str, temperature: f32) -> ComponentReading<f32> {
    ComponentReading {
        label: label.to_string(),
        stat: ComponentStat { temperature: Some(temperature), critical: None },
    }
}

fn disk(name: Option<&str>, total_space: u64, available_space: u64) -> DiskReading {
    DiskReading { name: name.map(|s| s.to_string()), total_space, available_space }
}

fn interface(n: u64) -> NetworkReading {
    NetworkReading { packets_received: n, packets_transmitted: 2 * n, received: 3 * n, transmitted: 4 * n }
}

fn readings(used: u64, disks: Vec<DiskReading>, networks: Vec<NetworkReading>) -> Readings<f32> {
    Readings {
        cpus: vec![1.5, 99.0],
        ram: MemStat { total: 100, used },
        swap: MemStat { total: 10, used: 0 },
        disks,
        networks,
        components: vec![sensor("Core 0", 40.0)],
    }
}

fn machine() -> StaticStat {
    StaticStat {
        name: Some("Linux".to_string()),
        kernel_version: None,
        os_version: Some("1".to_string()),
        host_name: Some("host".to_string()),
        boot_time: 7,
    }
}

#[test]
fn what_is_not_available_is_in_use() {
    let disks = collect_disks(&vec![disk(Some("sda"), 100, 30), disk(None, 5, 5)]);
    assert_eq!(
        disks,
        vec![
            (Some("sda".to_string()), MemStat { total: 100, used: 70 }),
            (None, MemStat { total: 5, used: 0 }),
        ]
    );
    assert!(collect_disks(&vec![]).is_empty());
}

#[test]
fn traffic_is_added_up_over_the_interfaces() {
    assert_eq!(
        collect_network(&vec![interface(1), interface(10)], 5),
        NetworkStat { rx_pkts: 11, tx_pkts: 22, rx_bytes: 33, tx_bytes: 44, elapsed_nanos: 5 }
    );
    assert_eq!(
        collect_network(&vec![], 0),
        NetworkStat { rx_pkts: 0, tx_pkts: 0, rx_bytes: 0, tx_bytes: 0, elapsed_nanos: 0 }
    );
}

#[test]
fn cores_and_packages_are_kept_by_label() {
    let kept = collect_components(&vec![
        sensor("Core 0", 40.0),
        sensor("acpitz", 20.0),
        sensor("CPU Package", 50.0),
        sensor("core 1", 41.0),
        sensor("Core 0", 45.0),
        sensor("My Core", 1.0),
        sensor("Package id 0", 51.0),
    ]);
    let shown: Vec<(&str, Option<f32>)> =
        kept.iter().map(|(label, stat)| (label.as_str(), stat.temperature)).collect();
    assert_eq!(
        shown,
        vec![
            ("Core 0", Some(45.0)),
            ("CPU Package", Some(50.0)),
            ("Package id 0", Some(51.0)),
        ]
    );
}

#[test]
fn readings_that_do_not_add_up_are_told_apart() {
    assert!(readings(1, vec![disk(None, 5, 5)], vec![interface(1)]).adds_up());
    assert!(!readings(1, vec![disk(None, 5, 5), disk(None, 5, 6)], vec![]).adds_up());
    let full = NetworkReading {
        packets_received: 0,
        packets_transmitted: 0,
        received: 0,
        transmitted: u64::MAX,
    };
    assert!(readings(1, vec![], vec![full]).adds_up());
    assert!(!readings(1, vec![], vec![full, interface(1)]).adds_up());
}

#[test]
fn the_status_is_that_of_the_last_readings_that_add_up() {
    let mut manager =
        SystemStatusManager::new(machine(), readings(1, vec![disk(Some("a"), 9, 4)], vec![interface(1)]));
    let status = manager.get_system_status();
    assert_eq!(status.0.name.as_deref(), Some("Linux"));
    assert_eq!(status.0.kernel_version, None);
    assert_eq!(status.0.os_version.as_deref(), Some("1"));
    assert_eq!(status.0.host_name.as_deref(), Some("host"));
    assert_eq!(status.0.boot_time, 7);
    assert_eq!(status.1.cpus, vec![1.5, 99.0]);
    assert_eq!(status.1.ram, MemStat { total: 100, used: 1 });
    assert_eq!(status.1.swap, MemStat { total: 10, used: 0 });
    assert_eq!(status.1.disks, vec![(Some("a".to_string()), MemStat { total: 9, used: 5 })]);
    assert_eq!(status.1.network.rx_bytes, 3);
    assert_eq!(status.1.network.elapsed_nanos, 1_000_000_000);
    assert_eq!(status.1.components.len(), 1);

    assert!(manager.update(readings(2, vec![], vec![]), 77));
    let status = manager.get_system_status();
    assert_eq!(status.1.ram.used, 2);
    assert_eq!(status.1.network.elapsed_nanos, 77);

    assert!(!manager.update(readings(3, vec![disk(None, 1, 2)], vec![]), 88));
    let status = manager.get_system_status();
    assert_eq!(status.0.boot_time, 7);
    assert_eq!(status.1.ram.used, 2);
    assert_eq!(status.1.network.elapsed_nanos, 77);
}
