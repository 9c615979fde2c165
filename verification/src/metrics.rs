//! The system metrics: what is read from the operating system through
//! `sysinfo`, and how the readings and the two power reports are put
//! together into one record.

use crate::battery::{battery_status, no_battery, parse_battery, Battery};
use crate::numbers::min_int;
use crate::text::{chars_of, lemma_empty_text, occurs_at, slice_views, split, split_slice};
use crate::thermal::{parse_thermal, thermal_level, ThermalLevel};
use vstd::prelude::*;

verus! {

/// `sysinfo::System`, the handle through which the operating system's
/// counters are read. Nothing is known of what it holds.
#[verifier::external_type_specification]
#[verifier::external_body]
pub struct ExSystem(sysinfo::System);

/// `System::refresh_cpu_usage` samples the processors' load again. Nothing
/// is claimed of the handle afterwards.
pub assume_specification[ sysinfo::System::refresh_cpu_usage ](sys: &mut sysinfo::System)
;

/// `System::refresh_memory` reads the memory counters again. Nothing is
/// claimed of the handle afterwards.
pub assume_specification[ sysinfo::System::refresh_memory ](sys: &mut sysinfo::System)
;

/// The size of the RAM in bytes that a handle holds since it last read the
/// memory counters.
pub uninterp spec fn held_total_memory(sys: sysinfo::System) -> u64;

/// The available RAM in bytes that a handle holds since it last read the
/// memory counters.
pub uninterp spec fn held_available_memory(sys: sysinfo::System) -> u64;

/// `System::total_memory` hands out the size of the RAM that the handle
/// holds. Nothing is claimed of the number itself.
pub assume_specification[ sysinfo::System::total_memory ](sys: &sysinfo::System) -> (bytes: u64)
    ensures
        bytes == held_total_memory(*sys),
;

/// `System::available_memory` hands out the available RAM that the handle
/// holds. Nothing is claimed of the number itself.
pub assume_specification[ sysinfo::System::available_memory ](sys: &sysinfo::System) -> (bytes:
    u64)
    ensures
        bytes == held_available_memory(*sys),
;

/// `System::used_memory` gives the RAM in use in bytes, as last read. On
/// some systems it is the size of the RAM less what is available, taken
/// without a check, so the call is kept to handles that hold no more as
/// available than as the size. Nothing is claimed of the number.
pub assume_specification[ sysinfo::System::used_memory ](sys: &sysinfo::System) -> (bytes: u64)
    requires
        held_available_memory(*sys) <= held_total_memory(*sys),
;

/// `System::uptime` gives the seconds since the machine was started.
/// Nothing is claimed of the number.
pub assume_specification[ sysinfo::System::uptime ]() -> (seconds: u64)
;

/// One mounted file system, as the operating system reports it.
#[derive(Clone, Debug, PartialEq, Eq)]
pub struct DiskSample {
    pub mount_point: String,
    pub total_space: u64,
    pub available_space: u64,
}

/// The byte counters of one network interface since the machine was started.
#[derive(Clone, Copy, Debug, PartialEq, Eq, Structural)]
pub struct NetworkSample {
    pub received: u64,
    pub transmitted: u64,
}

/// The brands of the processors, `Cpu::brand` of each entry of
/// `System::cpus` in its order. Nothing is claimed of the list.
#[verifier::external_body]
fn cpu_brands(sys: &sysinfo::System) -> (brands: Vec<String>) {
    sys.cpus().iter().map(|cpu| cpu.brand().to_string()).collect()
}

/// The file systems that `Disks::new_with_refreshed_list` finds, in the
/// order of `Disks::list`, each with its mount point, `Disk::total_space`
/// and `Disk::available_space`. Nothing is claimed of the list.
#[verifier::external_body]
fn read_disks() -> (disks: Vec<DiskSample>) {
    sysinfo::Disks::new_with_refreshed_list().list().iter().map(
        |disk|
            DiskSample {
                mount_point: disk.mount_point().to_string_lossy().to_string(),
                total_space: disk.total_space(),
                available_space: disk.available_space(),
            },
    ).collect()
}

/// The interfaces that `Networks::new_with_refreshed_list` finds, each with
/// `NetworkData::total_received` and `NetworkData::total_transmitted`.
/// Nothing is claimed of the list, nor of its order.
#[verifier::external_body]
fn read_networks() -> (networks: Vec<NetworkSample>) {
    sysinfo::Networks::new_with_refreshed_list().list().values().map(
        |data|
            NetworkSample {
                received: data.total_received(),
                transmitted: data.total_transmitted(),
            },
    ).collect()
}

/// What was read from the operating system for one record. `memory_used`
/// is 0 where more memory was reported available than the machine has.
#[derive(Clone, Debug, PartialEq, Eq)]
pub struct SystemReadings {
    pub cpu_brands: Vec<String>,
    pub memory_total: u64,
    pub memory_used: u64,
    pub uptime_seconds: u64,
    pub disks: Vec<DiskSample>,
    pub networks: Vec<NetworkSample>,
}

/// The size of a file system and how much of it is in use.
#[derive(Clone, Copy, Debug, PartialEq, Eq, Structural)]
pub struct DiskUsage {
    pub total: u64,
    pub used: u64,
}

/// The bytes that all interfaces together received and sent.
#[derive(Clone, Copy, Debug, PartialEq, Eq, Structural)]
pub struct NetworkTotals {
    pub received: u64,
    pub transmitted: u64,
}

/// Whether a piece of a path between two slashes names no directory of its
/// own: it is empty, or a single dot.
pub open spec fn is_idle_segment(piece: Seq<char>) -> bool {
    piece.len() == 0 || piece == seq!['.']
}

/// Whether a path is the root directory, as Unix reads paths: it starts with
/// a slash, and between its slashes stand only empty pieces and single dots.
pub open spec fn is_root_path(path: Seq<char>) -> bool {
    &&& path.len() > 0 && path[0] == '/'
    &&& forall|i: int|
        0 <= i < split(path, '/').len() ==> is_idle_segment(#[trigger] split(path, '/')[i])
}

/// Whether a file system is mounted at the root.
pub open spec fn is_root(disk: DiskSample) -> bool {
    is_root_path(disk.mount_point@)
}

/// Whether disk `j` is the first that is mounted at the root.
pub open spec fn first_root(disks: Seq<DiskSample>, j: int) -> bool {
    &&& 0 <= j < disks.len()
    &&& is_root(disks[j])
    &&& forall|k: int| 0 <= k < j ==> !is_root(#[trigger] disks[k])
}

/// The usage of one file system: what is not available is in use. Where more
/// is reported available than the file system holds, nothing is in use.
pub open spec fn usage_of(disk: DiskSample) -> DiskUsage {
    DiskUsage {
        total: disk.total_space,
        used: if disk.available_space <= disk.total_space {
            (disk.total_space - disk.available_space) as u64
        } else {
            0
        },
    }
}

/// The usage of the root file system: that of the first disk mounted at the
/// root, or zero for both numbers where there is none.
pub open spec fn root_usage(disks: Seq<DiskSample>) -> DiskUsage {
    if exists|j: int| first_root(disks, j) {
        usage_of(disks[choose|j: int| first_root(disks, j)])
    } else {
        DiskUsage { total: 0, used: 0 }
    }
}

/// The sum of the bytes received over all interfaces.
pub open spec fn received_sum(networks: Seq<NetworkSample>) -> int
    decreases networks.len(),
{
    if networks.len() == 0 {
        0
    } else {
        received_sum(networks.drop_last()) + networks.last().received
    }
}

/// The sum of the bytes sent over all interfaces.
pub open spec fn transmitted_sum(networks: Seq<NetworkSample>) -> int
    decreases networks.len(),
{
    if networks.len() == 0 {
        0
    } else {
        transmitted_sum(networks.drop_last()) + networks.last().transmitted
    }
}

/// The totals over all interfaces, each at most `u64::MAX`.
pub open spec fn network_sums(networks: Seq<NetworkSample>) -> NetworkTotals {
    NetworkTotals {
        received: min_int(received_sum(networks), u64::MAX as int) as u64,
        transmitted: min_int(transmitted_sum(networks), u64::MAX as int) as u64,
    }
}

/// Whether a mount point is the root directory.
pub fn is_root_mount(mount_point: &str) -> (r: bool)
    ensures
        r == is_root_path(mount_point@),
{
    let chars = chars_of(mount_point);
    let path = chars.as_slice();
    if path.len() == 0 || path[0] != '/' {
        return false;
    }
    let pieces = split_slice(path, '/');
    let ghost all = split(mount_point@, '/');
    let mut i: usize = 0;
    while i < pieces.len()
        invariant
            i <= pieces.len(),
            slice_views(pieces@) == all,
            all == split(mount_point@, '/'),
            forall|k: int| 0 <= k < i ==> is_idle_segment(#[trigger] all[k]),
        decreases pieces.len() - i,
    {
        let piece = pieces[i];
        assert(piece@ == all[i as int]);
        if piece.len() == 1 && piece[0] == '.' {
            assert(piece@ =~= seq!['.']);
        } else if piece.len() != 0 {
            assert(!is_idle_segment(all[i as int])) by {
                if piece@ == seq!['.'] {
                    assert(piece@.len() == 1);
                    assert(piece@[0] == '.');
                }
            }
            return false;
        }
        i += 1;
    }
    true
}

/// The usage of the root file system.
pub fn root_disk_usage(disks: &Vec<DiskSample>) -> (usage: DiskUsage)
    ensures
        usage == root_usage(disks@),
        usage.used <= usage.total,
{
    let mut i: usize = 0;
    while i < disks.len()
        invariant
            i <= disks.len(),
            forall|k: int| 0 <= k < i ==> !is_root(#[trigger] disks@[k]),
        decreases disks.len() - i,
    {
        let disk = &disks[i];
        if is_root_mount(disk.mount_point.as_str()) {
            proof {
                assert(first_root(disks@, i as int));
                let j = choose|j: int| first_root(disks@, j);
                assert(j == i) by {
                    if j < i {
                        assert(!is_root(disks@[j]));
                    }
                    if i < j {
                        assert(!is_root(disks@[i as int]));
                    }
                }
            }
            let used = if disk.available_space <= disk.total_space {
                disk.total_space - disk.available_space
            } else {
                0
            };
            return DiskUsage { total: disk.total_space, used };
        }
        i += 1;
    }
    assert(forall|j: int| !first_root(disks@, j));
    DiskUsage { total: 0, used: 0 }
}

/// The sums over a list of interfaces are not negative.
pub proof fn lemma_sums_nonnegative(networks: Seq<NetworkSample>)
    ensures
        received_sum(networks) >= 0,
        transmitted_sum(networks) >= 0,
    decreases networks.len(),
{
    if networks.len() > 0 {
        lemma_sums_nonnegative(networks.drop_last());
    }
}

/// The bytes that all interfaces together received and sent.
pub fn network_totals(networks: &Vec<NetworkSample>) -> (totals: NetworkTotals)
    ensures
        totals == network_sums(networks@),
{
    let mut received: u64 = 0;
    let mut transmitted: u64 = 0;
    let mut i: usize = 0;
    assert(networks@.take(0) =~= Seq::<NetworkSample>::empty());
    while i < networks.len()
        invariant
            i <= networks.len(),
            received == min_int(received_sum(networks@.take(i as int)), u64::MAX as int),
            transmitted == min_int(transmitted_sum(networks@.take(i as int)), u64::MAX as int),
        decreases networks.len() - i,
    {
        let sample = networks[i];
        proof {
            let next = networks@.take(i + 1);
            assert(next.drop_last() =~= networks@.take(i as int));
            assert(next.last() == sample);
            lemma_sums_nonnegative(networks@.take(i as int));
        }
        received = if received > u64::MAX - sample.received {
            u64::MAX
        } else {
            received + sample.received
        };
        transmitted = if transmitted > u64::MAX - sample.transmitted {
            u64::MAX
        } else {
            transmitted + sample.transmitted
        };
        i += 1;
    }
    assert(networks@.take(i as int) =~= networks@);
    NetworkTotals { received, transmitted }
}

/// One record of the machine's state. Memory and disk sizes are in bytes.
#[derive(Clone, Debug, PartialEq, Eq)]
pub struct SystemMetrics {
    pub cpu_brand: String,
    pub memory_total: u64,
    pub memory_used: u64,
    pub disk_total: u64,
    pub disk_used: u64,
    pub network_rx_bytes: u64,
    pub network_tx_bytes: u64,
    pub uptime_seconds: u64,
    pub battery_percent: i64,
    pub battery_charging: bool,
    pub thermal_pressure: ThermalLevel,
}

/// What a record holds.
pub struct MetricsView {
    pub cpu_brand: Seq<char>,
    pub memory_total: u64,
    pub memory_used: u64,
    pub disk: DiskUsage,
    pub network: NetworkTotals,
    pub uptime_seconds: u64,
    pub battery: Battery,
    pub thermal_pressure: ThermalLevel,
}

impl View for SystemMetrics {
    type V = MetricsView;

    open spec fn view(&self) -> MetricsView {
        MetricsView {
            cpu_brand: self.cpu_brand@,
            memory_total: self.memory_total,
            memory_used: self.memory_used,
            disk: DiskUsage { total: self.disk_total, used: self.disk_used },
            network: NetworkTotals {
                received: self.network_rx_bytes,
                transmitted: self.network_tx_bytes,
            },
            uptime_seconds: self.uptime_seconds,
            battery: Battery { percent: self.battery_percent, charging: self.battery_charging },
            thermal_pressure: self.thermal_pressure,
        }
    }
}

/// The brand to report: that of the first processor, or "Unknown" where the
/// machine shows no processor.
pub open spec fn brand_of(brands: Seq<String>) -> Seq<char> {
    if brands.len() > 0 {
        brands[0]@
    } else {
        "Unknown"@
    }
}

/// The battery for the answer of the battery query; none where the query
/// could not be run.
pub open spec fn battery_of(report: Option<&str>) -> Battery {
    match report {
        Some(text) => battery_status(text@),
        None => no_battery(),
    }
}

/// The thermal level for the answer of the thermal query; nominal where the
/// query could not be run.
pub open spec fn thermal_of(report: Option<&str>) -> ThermalLevel {
    match report {
        Some(text) => thermal_level(text@),
        None => ThermalLevel::Nominal,
    }
}

/// The record that readings and power reports give.
pub open spec fn metrics_of(
    readings: SystemReadings,
    battery_report: Option<&str>,
    thermal_report: Option<&str>,
) -> MetricsView {
    MetricsView {
        cpu_brand: brand_of(readings.cpu_brands@),
        memory_total: readings.memory_total,
        memory_used: readings.memory_used,
        disk: root_usage(readings.disks@),
        network: network_sums(readings.networks@),
        uptime_seconds: readings.uptime_seconds,
        battery: battery_of(battery_report),
        thermal_pressure: thermal_of(thermal_report),
    }
}

/// Reads the battery from the answer of the battery query.
pub fn get_battery_info(report: Option<&str>) -> (battery: Battery)
    ensures
        battery == battery_of(report),
{
    match report {
        Some(text) => parse_battery(text),
        None => Battery { percent: -1, charging: false },
    }
}

/// Reads the thermal level from the answer of the thermal query.
pub fn get_thermal_pressure(report: Option<&str>) -> (level: ThermalLevel)
    ensures
        level == thermal_of(report),
{
    match report {
        Some(text) => parse_thermal(text),
        None => ThermalLevel::Nominal,
    }
}

/// Puts a record together from readings and power reports.
pub fn build_metrics(
    readings: &SystemReadings,
    battery_report: Option<&str>,
    thermal_report: Option<&str>,
) -> (metrics: SystemMetrics)
    ensures
        metrics@ == metrics_of(*readings, battery_report, thermal_report),
        metrics.disk_used <= metrics.disk_total,
{
    let cpu_brand = if readings.cpu_brands.len() > 0 {
        readings.cpu_brands[0].clone()
    } else {
        "Unknown".to_owned()
    };
    let disk = root_disk_usage(&readings.disks);
    let network = network_totals(&readings.networks);
    let battery = get_battery_info(battery_report);
    let thermal_pressure = get_thermal_pressure(thermal_report);
    SystemMetrics {
        cpu_brand,
        memory_total: readings.memory_total,
        memory_used: readings.memory_used,
        disk_total: disk.total,
        disk_used: disk.used,
        network_rx_bytes: network.received,
        network_tx_bytes: network.transmitted,
        uptime_seconds: readings.uptime_seconds,
        battery_percent: battery.percent,
        battery_charging: battery.charging,
        thermal_pressure,
    }
}

/// Samples the processors' load and the memory counters again, and reads
/// what a record needs from the operating system. The size of the memory is
/// the one that the handle then holds, and no memory counts as used where the
/// handle holds more as available than as the size.
pub fn read_system(sys: &mut sysinfo::System) -> (readings: SystemReadings)
    ensures
        readings.memory_total == held_total_memory(*final(sys)),
        held_available_memory(*final(sys)) > held_total_memory(*final(sys))
            ==> readings.memory_used == 0,
{
    sys.refresh_cpu_usage();
    sys.refresh_memory();
    let cpu_brands = cpu_brands(sys);
    let memory_total = sys.total_memory();
    let memory_used = if sys.available_memory() <= memory_total {
        sys.used_memory()
    } else {
        0
    };
    let uptime_seconds = sysinfo::System::uptime();
    let disks = read_disks();
    let networks = read_networks();
    SystemReadings { cpu_brands, memory_total, memory_used, uptime_seconds, disks, networks }
}

/// Takes one record of the machine's state. The readings are whatever the
/// operating system reports at the time of the call; the battery and the
/// thermal level are those of the two reports, and the record never shows
/// more disk space in use than the disk holds.
pub fn get_system_metrics(
    sys: &mut sysinfo::System,
    battery_report: Option<&str>,
    thermal_report: Option<&str>,
) -> (metrics: SystemMetrics)
    ensures
        metrics@.battery == battery_of(battery_report),
        metrics@.thermal_pressure == thermal_of(thermal_report),
        metrics.disk_used <= metrics.disk_total,
{
    let readings = read_system(sys);
    build_metrics(&readings, battery_report, thermal_report)
}

/// A power query that wrote nothing is read as one that could not be run.
pub proof fn lemma_silent_query_is_fallback()
    ensures
        battery_of(Some("")) == battery_of(None),
        thermal_of(Some("")) == thermal_of(None),
{
    reveal_strlit("");
    reveal_strlit("Moderate");
    reveal_strlit("Heavy");
    reveal_strlit("Critical");
    let e = ""@;
    assert(e =~= Seq::<char>::empty());
    lemma_empty_text('\t');
    assert(forall|i: int| !occurs_at(e, "Moderate"@, i));
    assert(forall|i: int| !occurs_at(e, "Heavy"@, i));
    assert(forall|i: int| !occurs_at(e, "Critical"@, i));
}

} // verus!
