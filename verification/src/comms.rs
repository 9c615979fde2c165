//! The connectivity status: how it is put together from the answers of the
//! four probes, and the cache that keeps it for thirty seconds.

use crate::bluetooth::{bluetooth_devices, bluetooth_enabled, parse_bluetooth, string_views};
use crate::brightness::{brightness_of_text, brightness_percent, parse_brightness, value_text};
use crate::text::{lemma_empty_text, split};
use crate::volume::{parse_volume, volume_percent};
use crate::wifi::{not_connected, parse_wifi, wifi_name};
use vstd::prelude::*;

verus! {

/// One snapshot of the machine's connectivity.
#[derive(Debug, PartialEq, Eq)]
pub struct CommsStatus {
    pub wifi: String,
    pub bluetooth_enabled: bool,
    pub bluetooth_devices: Vec<String>,
    pub volume_percent: i32,
    pub brightness_percent: i32,
}

/// What a snapshot holds.
pub struct CommsView {
    pub wifi: Seq<char>,
    pub bluetooth_enabled: bool,
    pub bluetooth_devices: Seq<Seq<char>>,
    pub volume_percent: i32,
    pub brightness_percent: i32,
}

impl View for CommsStatus {
    type V = CommsView;

    open spec fn view(&self) -> CommsView {
        CommsView {
            wifi: self.wifi@,
            bluetooth_enabled: self.bluetooth_enabled,
            bluetooth_devices: string_views(self.bluetooth_devices@),
            volume_percent: self.volume_percent,
            brightness_percent: self.brightness_percent,
        }
    }
}

/// A copy of a list of strings.
pub fn copy_strings(v: &Vec<String>) -> (r: Vec<String>)
    ensures
        string_views(r@) == string_views(v@),
{
    let mut r: Vec<String> = Vec::new();
    let mut i: usize = 0;
    while i < v.len()
        invariant
            i <= v.len(),
            r@.len() == i,
            forall|j: int| 0 <= j < i ==> r@[j]@ == v@[j]@,
        decreases v.len() - i,
    {
        r.push(v[i].clone());
        i += 1;
    }
    assert(string_views(r@) =~= string_views(v@));
    r
}

impl Clone for CommsStatus {
    fn clone(&self) -> (r: Self)
        ensures
            r@ == self@,
    {
        CommsStatus {
            wifi: self.wifi.clone(),
            bluetooth_enabled: self.bluetooth_enabled,
            bluetooth_devices: copy_strings(&self.bluetooth_devices),
            volume_percent: self.volume_percent,
            brightness_percent: self.brightness_percent,
        }
    }
}

/// What the four probes wrote to their standard output. A field is `None`
/// where the probe could not be run.
#[derive(Clone, Debug, PartialEq, Eq)]
pub struct ProbeOutputs {
    pub wifi: Option<String>,
    pub bluetooth: Option<String>,
    pub volume: Option<String>,
    pub brightness: Option<String>,
}

/// The text that a probe wrote, if it ran.
pub open spec fn output_text(output: Option<String>) -> Option<Seq<char>> {
    match output {
        Some(s) => Some(s@),
        None => None,
    }
}

/// The network name for the wireless probe's answer.
pub open spec fn wifi_of(output: Option<Seq<char>>) -> Seq<char> {
    match output {
        Some(report) => wifi_name(report),
        None => not_connected(),
    }
}

/// The radio's state for the Bluetooth probe's answer.
pub open spec fn bluetooth_enabled_of(output: Option<Seq<char>>) -> bool {
    match output {
        Some(report) => bluetooth_enabled(report),
        None => false,
    }
}

/// The connected devices for the Bluetooth probe's answer.
pub open spec fn bluetooth_devices_of(output: Option<Seq<char>>) -> Seq<Seq<char>> {
    match output {
        Some(report) => bluetooth_devices(report),
        None => Seq::empty(),
    }
}

/// The volume for the sound probe's answer.
pub open spec fn volume_of(output: Option<Seq<char>>) -> i32 {
    match output {
        Some(answer) => volume_percent(answer),
        None => -1i32,
    }
}

/// The brightness for the backlight probe's answer.
pub open spec fn brightness_of_output(output: Option<Seq<char>>) -> i32 {
    match output {
        Some(dump) => brightness_percent(dump),
        None => -1i32,
    }
}

/// The snapshot that the probes' answers give. Each probe is read on its
/// own; one that could not be run gives its fallback value.
pub open spec fn comms_status(raw: ProbeOutputs) -> CommsView {
    CommsView {
        wifi: wifi_of(output_text(raw.wifi)),
        bluetooth_enabled: bluetooth_enabled_of(output_text(raw.bluetooth)),
        bluetooth_devices: bluetooth_devices_of(output_text(raw.bluetooth)),
        volume_percent: volume_of(output_text(raw.volume)),
        brightness_percent: brightness_of_output(output_text(raw.brightness)),
    }
}

/// Puts a snapshot together from the probes' answers.
pub fn get_comms_status(raw: &ProbeOutputs) -> (status: CommsStatus)
    ensures
        status@ == comms_status(*raw),
{
    let wifi = match &raw.wifi {
        Some(report) => parse_wifi(report.as_str()),
        None => "Not Connected".to_owned(),
    };
    let (bluetooth_enabled, bluetooth_devices) = match &raw.bluetooth {
        Some(report) => parse_bluetooth(report.as_str()),
        None => (false, Vec::new()),
    };
    let volume_percent = match &raw.volume {
        Some(answer) => parse_volume(answer.as_str()),
        None => -1,
    };
    let brightness_percent = match &raw.brightness {
        Some(dump) => parse_brightness(dump.as_str()),
        None => -1,
    };
    assert(raw.bluetooth is None ==> string_views(bluetooth_devices@) =~= Seq::empty());
    CommsStatus { wifi, bluetooth_enabled, bluetooth_devices, volume_percent, brightness_percent }
}

/// A probe that wrote nothing is read as one that could not be run.
pub proof fn lemma_silent_probe_is_fallback()
    ensures
        wifi_of(Some(Seq::empty())) == wifi_of(None),
        bluetooth_enabled_of(Some(Seq::empty())) == bluetooth_enabled_of(None),
        bluetooth_devices_of(Some(Seq::empty())) == bluetooth_devices_of(None),
        volume_of(Some(Seq::empty())) == volume_of(None),
        brightness_of_output(Some(Seq::empty())) == brightness_of_output(None),
{
    let e = Seq::<char>::empty();
    lemma_empty_text('=');
    assert(bluetooth_devices(e) =~= Seq::<Seq<char>>::empty());
    let pieces = split(e, '=');
    assert(pieces[0] == e);
    assert(value_text(e) =~= e);
    assert(brightness_of_text(e) is None);
    assert forall|j: int| 0 <= j < pieces.len() implies brightness_of_text(
        value_text(#[trigger] pieces[j]),
    ) is None by {
        assert(pieces[j] == e);
    }
}

} // verus!
