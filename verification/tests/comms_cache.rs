use lcars_core::cache::{CommsCache, COMMS_TTL_NANOS};
use lcars_core::comms::{get_comms_status, CommsStatus, ProbeOutputs};

fn sample_outputs(volume: &str) -> ProbeOutputs {
    ProbeOutputs {
        wifi: Some("Current Network Information:\n    MyNetwork:\n".to_string()),
        bluetooth: Some("State: On\nConnected:\n  Keyboard:\n    Address: 1\n".to_string()),
        volume: Some(volume.to_string()),
        brightness: Some("\"brightness\" = 0.75".to_string()),
    }
}

fn serve(cache: &mut CommsCache, now: u64, probe_runs: &mut u32, volume: &str) -> CommsStatus {
    match cache.lookup(now) {
        Some(status) => status,
        None => {
            *probe_runs += 1;
            cache.refresh(now, &sample_outputs(volume))
        }
    }
}

#[test]
fn status_is_put_together_from_all_probes() {
    let status = get_comms_status(&sample_outputs("42\n"));
    assert_eq!(
        status,
        CommsStatus {
            wifi: "MyNetwork".to_string(),
            bluetooth_enabled: true,
            bluetooth_devices: vec!["Keyboard".to_string()],
            volume_percent: 42,
            brightness_percent: 75,
        }
    );
}

#[test]
fn probes_that_did_not_run_give_fallbacks() {
    let raw = ProbeOutputs { wifi: None, bluetooth: None, volume: None, brightness: None };
    assert_eq!(
        get_comms_status(&raw),
        CommsStatus {
            wifi: "Not Connected".to_string(),
            bluetooth_enabled: false,
            bluetooth_devices: vec![],
            volume_percent: -1,
            brightness_percent: -1,
        }
    );
}

#[test]
fn one_failed_probe_leaves_the_others() {
    let mut raw = sample_outputs("17");
    raw.wifi = None;
    let status = get_comms_status(&raw);
    assert_eq!(status.wifi, "Not Connected");
    assert_eq!(status.volume_percent, 17);
    assert_eq!(status.brightness_percent, 75);
    assert!(status.bluetooth_enabled);
}

#[test]
fn new_cache_serves_nothing() {
    let cache = CommsCache::new();
    assert_eq!(cache.lookup(0), None);
    assert_eq!(cache.lookup(u64::MAX), None);
    assert_eq!(cache.captured_at(), None);
}

#[test]
fn second_call_within_ttl_is_served_from_cache() {
    let mut cache = CommsCache::new();
    let mut probe_runs = 0;
    let start = 5_000_000_000;
    let first = serve(&mut cache, start, &mut probe_runs, "40");
    assert_eq!(probe_runs, 1);
    let second = serve(&mut cache, start + COMMS_TTL_NANOS - 1, &mut probe_runs, "80");
    assert_eq!(probe_runs, 1);
    assert_eq!(first, second);
    assert_eq!(second.volume_percent, 40);
    assert_eq!(cache.captured_at(), Some(start));
}

#[test]
fn call_after_ttl_refreshes_once() {
    let mut cache = CommsCache::new();
    let mut probe_runs = 0;
    let start = 5_000_000_000;
    serve(&mut cache, start, &mut probe_runs, "40");
    let later = start + COMMS_TTL_NANOS;
    let status = serve(&mut cache, later, &mut probe_runs, "80");
    assert_eq!(probe_runs, 2);
    assert_eq!(status.volume_percent, 80);
    assert_eq!(cache.captured_at(), Some(later));
    let again = serve(&mut cache, later + 1, &mut probe_runs, "99");
    assert_eq!(probe_runs, 2);
    assert_eq!(again, status);
}

#[test]
fn clock_that_reads_earlier_counts_as_no_time_passed() {
    let mut cache = CommsCache::new();
    let status = get_comms_status(&sample_outputs("5"));
    cache.store(1_000, status.clone());
    assert_eq!(cache.lookup(10), Some(status));
}

#[test]
fn store_replaces_what_was_held() {
    let mut cache = CommsCache::new();
    cache.store(1, get_comms_status(&sample_outputs("1")));
    cache.store(2, get_comms_status(&sample_outputs("2")));
    assert_eq!(cache.captured_at(), Some(2));
    assert_eq!(cache.lookup(2).map(|s| s.volume_percent), Some(2));
}

#[test]
fn ttl_is_thirty_seconds() {
    assert_eq!(COMMS_TTL_NANOS, 30 * 1_000_000_000);
}
