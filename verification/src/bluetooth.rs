//! The state of the Bluetooth radio and the names of the connected devices,
//! read from a Bluetooth hardware report.

use crate::text::{
    chars_of, contains, contains_slice, ends_with_char, lines, lines_of, slice_eq, slice_views,
    starts_with_slice, string_of, strip_trailing, strip_trailing_char, trim, trim_slice,
};
use vstd::prelude::*;

verus! {

/// Whether the trimmed line `t` reports the radio as switched on.
pub open spec fn reports_power_on(t: Seq<char>) -> bool {
    (contains(t, "State:"@) || contains(t, "Bluetooth:"@)) && contains(t, "On"@)
}

/// Whether the trimmed line `t` opens the list of connected devices.
pub open spec fn opens_connected(t: Seq<char>) -> bool {
    "Connected:"@.is_prefix_of(t)
}

/// Whether the trimmed line `t` ends the list of connected devices.
pub open spec fn closes_connected(t: Seq<char>) -> bool {
    t.len() == 0 || "Not Connected:"@.is_prefix_of(t)
}

/// Whether line `j` lies in the list of connected devices: the list was
/// opened on an earlier line and not ended since.
pub open spec fn in_connected(ls: Seq<Seq<char>>, j: int) -> bool {
    exists|m: int|
        0 <= m < j && opens_connected(trim(#[trigger] ls[m])) && forall|k: int|
            m < k < j ==> !closes_connected(trim(#[trigger] ls[k]))
}

/// Whether the trimmed line `t` is the heading of a device: it ends in a
/// colon, is no heading of a device's details, and what stands before the
/// colons is a name.
pub open spec fn is_device_heading(t: Seq<char>) -> bool {
    let name = strip_trailing(t, ':');
    &&& t.len() > 0 && t.last() == ':'
    &&& !contains(t, "Address"@)
    &&& !contains(t, "Services"@)
    &&& name.len() > 0
    &&& name != "Yes"@
    &&& name != "No"@
}

/// Whether line `j` names a connected device.
pub open spec fn names_device(ls: Seq<Seq<char>>, j: int) -> bool {
    let t = trim(ls[j]);
    &&& 0 <= j < ls.len()
    &&& in_connected(ls, j)
    &&& !opens_connected(t)
    &&& !closes_connected(t)
    &&& is_device_heading(t)
}

/// The device names on the first `n` lines, in the order of the lines.
pub open spec fn devices_upto(ls: Seq<Seq<char>>, n: int) -> Seq<Seq<char>>
    decreases n,
{
    if n <= 0 {
        Seq::empty()
    } else if names_device(ls, n - 1) {
        devices_upto(ls, n - 1).push(strip_trailing(trim(ls[n - 1]), ':'))
    } else {
        devices_upto(ls, n - 1)
    }
}

/// Whether a report shows the radio as switched on: some line says so.
pub open spec fn bluetooth_enabled(report: Seq<char>) -> bool {
    let ls = lines(report);
    exists|j: int| 0 <= j < ls.len() && reports_power_on(trim(#[trigger] ls[j]))
}

/// The names of the connected devices in a report, in the order of the lines.
pub open spec fn bluetooth_devices(report: Seq<char>) -> Seq<Seq<char>> {
    let ls = lines(report);
    devices_upto(ls, ls.len() as int)
}

/// The texts that a sequence of strings holds.
pub open spec fn string_views(v: Seq<String>) -> Seq<Seq<char>> {
    Seq::new(v.len(), |i: int| v[i]@)
}

/// Reads the radio's state and the connected devices from a Bluetooth
/// hardware report.
pub fn parse_bluetooth(report: &str) -> (r: (bool, Vec<String>))
    ensures
        r.0 == bluetooth_enabled(report@),
        string_views(r.1@) == bluetooth_devices(report@),
{
    let chars = chars_of(report);
    let ls = lines_of(chars.as_slice());
    let state = chars_of("State:");
    let radio = chars_of("Bluetooth:");
    let on = chars_of("On");
    let opener = chars_of("Connected:");
    let closer = chars_of("Not Connected:");
    let address = chars_of("Address");
    let services = chars_of("Services");
    let yes = chars_of("Yes");
    let no = chars_of("No");
    let ghost all = lines(report@);
    let mut enabled = false;
    let mut devices: Vec<String> = Vec::new();
    let mut inside = false;
    let mut i: usize = 0;
    assert(string_views(devices@) =~= devices_upto(all, 0));
    while i < ls.len()
        invariant
            i <= ls.len(),
            slice_views(ls@) == all,
            state@ == "State:"@,
            radio@ == "Bluetooth:"@,
            on@ == "On"@,
            opener@ == "Connected:"@,
            closer@ == "Not Connected:"@,
            address@ == "Address"@,
            services@ == "Services"@,
            yes@ == "Yes"@,
            no@ == "No"@,
            enabled <==> exists|j: int| 0 <= j < i && reports_power_on(trim(#[trigger] all[j])),
            inside <==> in_connected(all, i as int),
            string_views(devices@) == devices_upto(all, i as int),
        decreases ls.len() - i,
    {
        let t = trim_slice(ls[i]);
        assert(ls@[i as int]@ == all[i as int]);
        let ghost line = trim(all[i as int]);
        if (contains_slice(t, state.as_slice()) || contains_slice(t, radio.as_slice()))
            && contains_slice(t, on.as_slice()) {
            enabled = true;
        }
        let opens = starts_with_slice(t, opener.as_slice());
        let closes = t.len() == 0 || starts_with_slice(t, closer.as_slice());
        let was_inside = inside;
        let ghost before = devices@;
        if opens {
            inside = true;
        } else if inside {
            if closes {
                inside = false;
            } else if ends_with_char(t, ':') && !contains_slice(t, address.as_slice())
                && !contains_slice(t, services.as_slice()) {
                let name = strip_trailing_char(t, ':');
                if name.len() > 0 && !slice_eq(name, yes.as_slice()) && !slice_eq(
                    name,
                    no.as_slice(),
                ) {
                    devices.push(string_of(name));
                    assert(string_views(devices@) =~= string_views(before).push(name@));
                }
            }
        }
        proof {
            if opens {
                assert(opens_connected(trim(all[i as int])));
                assert(in_connected(all, i + 1));
            } else if was_inside && !closes {
                let m = choose|m: int|
                    0 <= m < i && opens_connected(trim(#[trigger] all[m])) && forall|k: int|
                        m < k < i ==> !closes_connected(trim(#[trigger] all[k]));
                assert(forall|k: int| m < k < i + 1 ==> !closes_connected(trim(#[trigger] all[k])));
                assert(in_connected(all, i + 1));
            } else {
                if in_connected(all, i + 1) {
                    let m = choose|m: int|
                        0 <= m < i + 1 && opens_connected(trim(#[trigger] all[m])) && forall|
                            k: int,
                        |
                            m < k < i + 1 ==> !closes_connected(trim(#[trigger] all[k]));
                    assert(m < i);
                    if closes {
                        assert(closes_connected(trim(all[i as int])));
                        assert(false);
                    } else {
                        assert(forall|k: int|
                            m < k < i ==> !closes_connected(trim(#[trigger] all[k])));
                        assert(in_connected(all, i as int));
                        assert(false);
                    }
                }
            }
        }
        i += 1;
    }
    (enabled, devices)
}

} // verus!
