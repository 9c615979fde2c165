use lcars_core::battery::Battery;
use lcars_core::metrics::{
    build_metrics, get_battery_info, get_system_metrics, get_thermal_pressure, is_root_mount,
    network_totals, read_system, root_disk_usage, DiskSample, DiskUsage, NetworkSample,
    NetworkTotals, SystemReadings,
};
use lcars_core::thermal::ThermalLevel;

fn disk(mount_point: &str, total_space: u64, available_space: u64) -> DiskSample {
    DiskSample { mount_point: mount_point.to_string(), total_space, available_space }
}

#[test]
fn root_disk_is_the_first_mounted_at_root() {
    let disks = vec![disk("/boot", 10, 1), disk("/", 1000, 250), disk("/", 7, 7)];
    assert_eq!(root_disk_usage(&disks), DiskUsage { total: 1000, used: 750 });
}

#[test]
fn no_root_disk_gives_zeros() {
    assert_eq!(root_disk_usage(&vec![]), DiskUsage { total: 0, used: 0 });
    assert_eq!(root_disk_usage(&vec![disk("/home", 10, 1)]), DiskUsage { total: 0, used: 0 });
    assert_eq!(root_disk_usage(&vec![disk("", 10, 1)]), DiskUsage { total: 0, used: 0 });
}

#[test]
fn root_is_told_as_paths_are_compared() {
    for mount in [
        "/", "//", "///", "/.", "/./", "/.//.", "", ".", "./", "/..", "/a", "a/", "/ ", " /",
        "/./a", "/.a", "/..", "/...", "/home", "\\", "/\u{e9}",
    ] {
        let expected = std::path::Path::new(mount) == std::path::Path::new("/");
        assert_eq!(is_root_mount(mount), expected, "mount point {:?}", mount);
    }
}

#[test]
fn root_disk_may_be_written_with_more_slashes() {
    let disks = vec![disk("/boot", 10, 1), disk("//", 40, 10), disk("/", 1000, 250)];
    assert_eq!(root_disk_usage(&disks), DiskUsage { total: 40, used: 30 });
}

#[test]
fn disk_with_more_available_than_total_has_nothing_in_use() {
    assert_eq!(root_disk_usage(&vec![disk("/", 10, 11)]), DiskUsage { total: 10, used: 0 });
    assert_eq!(root_disk_usage(&vec![disk("/", 10, 10)]), DiskUsage { total: 10, used: 0 });
    assert_eq!(root_disk_usage(&vec![disk("/", 10, 0)]), DiskUsage { total: 10, used: 10 });
}

#[test]
fn network_totals_add_up() {
    let nets = vec![
        NetworkSample { received: 10, transmitted: 1 },
        NetworkSample { received: 20, transmitted: 2 },
        NetworkSample { received: 0, transmitted: 3 },
    ];
    assert_eq!(network_totals(&nets), NetworkTotals { received: 30, transmitted: 6 });
    assert_eq!(network_totals(&vec![]), NetworkTotals { received: 0, transmitted: 0 });
}

#[test]
fn network_totals_stop_at_the_largest_number() {
    let nets = vec![
        NetworkSample { received: u64::MAX - 1, transmitted: 1 },
        NetworkSample { received: 5, transmitted: u64::MAX - 1 },
        NetworkSample { received: 5, transmitted: 0 },
    ];
    assert_eq!(network_totals(&nets), NetworkTotals { received: u64::MAX, transmitted: u64::MAX });
}

#[test]
fn power_reports_that_are_missing_give_fallbacks() {
    assert_eq!(get_battery_info(None), Battery { percent: -1, charging: false });
    assert_eq!(get_thermal_pressure(None), ThermalLevel::Nominal);
    assert_eq!(get_battery_info(Some("x\t55%; charging")), Battery { percent: 55, charging: true });
    assert_eq!(get_thermal_pressure(Some("Heavy")), ThermalLevel::Heavy);
}

#[test]
fn record_is_built_from_readings() {
    let readings = SystemReadings {
        cpu_brands: vec!["Apple M2".to_string(), "Apple M2 (efficiency)".to_string()],
        memory_total: 17_179_869_184,
        memory_used: 8_589_934_592,
        uptime_seconds: 3600,
        disks: vec![disk("/", 500, 100)],
        networks: vec![NetworkSample { received: 7, transmitted: 9 }],
    };
    let m = build_metrics(&readings, Some("a\t87%; charging; x"), Some("Moderate"));
    assert_eq!(m.cpu_brand, "Apple M2");
    assert_eq!(m.memory_total, 17_179_869_184);
    assert_eq!(m.memory_used, 8_589_934_592);
    assert_eq!(m.disk_total, 500);
    assert_eq!(m.disk_used, 400);
    assert_eq!(m.network_rx_bytes, 7);
    assert_eq!(m.network_tx_bytes, 9);
    assert_eq!(m.uptime_seconds, 3600);
    assert_eq!(m.battery_percent, 87);
    assert!(m.battery_charging);
    assert_eq!(m.thermal_pressure, ThermalLevel::Moderate);
}

#[test]
fn record_without_processor_has_unknown_brand() {
    let readings = SystemReadings {
        cpu_brands: vec![],
        memory_total: 0,
        memory_used: 0,
        uptime_seconds: 0,
        disks: vec![],
        networks: vec![],
    };
    let m = build_metrics(&readings, None, None);
    assert_eq!(m.cpu_brand, "Unknown");
    assert_eq!(m.battery_percent, -1);
    assert!(!m.battery_charging);
    assert_eq!(m.thermal_pressure, ThermalLevel::Nominal);
    assert_eq!(m.disk_total, 0);
}

#[test]
fn live_record_keeps_the_reports_and_the_disk_bound() {
    let mut sys = sysinfo::System::new_all();
    let m = get_system_metrics(&mut sys, Some("x\t12%; discharging"), Some("Critical"));
    assert_eq!(m.battery_percent, 12);
    assert!(!m.battery_charging);
    assert_eq!(m.thermal_pressure, ThermalLevel::Critical);
    assert!(m.disk_used <= m.disk_total);
}

#[test]
fn live_readings_match_the_handle() {
    let mut sys = sysinfo::System::new_all();
    let readings = read_system(&mut sys);
    assert_eq!(readings.memory_total, sys.total_memory());
    if sys.available_memory() <= sys.total_memory() {
        assert_eq!(readings.memory_used, sys.used_memory());
    } else {
        assert_eq!(readings.memory_used, 0);
    }
    let brands: Vec<String> = sys.cpus().iter().map(|c| c.brand().to_string()).collect();
    assert_eq!(readings.cpu_brands, brands);
}
