//! The name of the current wireless network, read from a wireless hardware
//! report.

use crate::text::{
    chars_of, ends_with_char, lines, lines_of, slice_eq, slice_views, string_of, strip_trailing,
    strip_trailing_char, trim, trim_slice,
};
use vstd::prelude::*;

verus! {

/// The line that opens the report's section on the current network.
pub open spec fn network_marker() -> Seq<char> {
    "Current Network Information:"@
}

/// What is reported where no network name is found.
pub open spec fn not_connected() -> Seq<char> {
    "Not Connected"@
}

/// Whether the trimmed line `t` is a heading that names a network: it ends in
/// a colon and is not the section marker.
pub open spec fn is_network_heading(t: Seq<char>) -> bool {
    &&& t != network_marker()
    &&& t.len() > 0 && t.last() == ':'
}

/// Whether line `j` names the network: it is a heading, and the section
/// marker stands on an earlier line.
pub open spec fn names_network(ls: Seq<Seq<char>>, j: int) -> bool {
    &&& 0 <= j < ls.len()
    &&& is_network_heading(trim(ls[j]))
    &&& exists|m: int| 0 <= m < j && trim(#[trigger] ls[m]) == network_marker()
}

/// Whether `j` is the first line that names the network.
pub open spec fn first_network_line(ls: Seq<Seq<char>>, j: int) -> bool {
    &&& names_network(ls, j)
    &&& forall|k: int| 0 <= k < j ==> !names_network(ls, k)
}

/// The network name in a report: the first heading after the section marker,
/// without its colons, or "Not Connected" where there is none.
pub open spec fn wifi_name(report: Seq<char>) -> Seq<char> {
    let ls = lines(report);
    if exists|j: int| first_network_line(ls, j) {
        let j = choose|j: int| first_network_line(ls, j);
        strip_trailing(trim(ls[j]), ':')
    } else {
        not_connected()
    }
}

/// Reads the current network's name from a wireless hardware report.
pub fn parse_wifi(report: &str) -> (name: String)
    ensures
        name@ == wifi_name(report@),
{
    let chars = chars_of(report);
    let ls = lines_of(chars.as_slice());
    let marker = chars_of("Current Network Information:");
    let ghost all = lines(report@);
    let mut armed = false;
    let mut i: usize = 0;
    while i < ls.len()
        invariant
            i <= ls.len(),
            slice_views(ls@) == all,
            all == lines(report@),
            marker@ == network_marker(),
            armed <==> exists|m: int| 0 <= m < i && trim(#[trigger] all[m]) == network_marker(),
            forall|k: int| 0 <= k < i ==> !names_network(all, k),
        decreases ls.len() - i,
    {
        let t = trim_slice(ls[i]);
        assert(ls@[i as int]@ == all[i as int]);
        if slice_eq(t, marker.as_slice()) {
            armed = true;
        } else if armed && ends_with_char(t, ':') {
            assert(names_network(all, i as int));
            assert(first_network_line(all, i as int));
            proof {
                let j = choose|j: int| first_network_line(all, j);
                assert(j == i) by {
                    if j < i {
                        assert(!names_network(all, j));
                    }
                    if i < j {
                        assert(!names_network(all, i as int));
                    }
                }
            }
            return string_of(strip_trailing_char(t, ':'));
        }
        i += 1;
    }
    assert(forall|j: int| !first_network_line(all, j));
    "Not Connected".to_owned()
}

/// A report without the section marker gives "Not Connected".
pub proof fn lemma_no_marker_not_connected(report: Seq<char>)
    requires
        forall|j: int|
            0 <= j < lines(report).len() ==> trim(#[trigger] lines(report)[j]) != network_marker(),
    ensures
        wifi_name(report) == not_connected(),
{
    let ls = lines(report);
    assert forall|j: int| !first_network_line(ls, j) by {
        if names_network(ls, j) {
            let m = choose|m: int| 0 <= m < j && trim(#[trigger] ls[m]) == network_marker();
            assert(trim(ls[m]) != network_marker());
        }
    }
}

/// The name that a report gives is that of its first heading after the
/// marker: no earlier line names the network.
pub proof fn lemma_wifi_name_is_first(report: Seq<char>, j: int)
    requires
        first_network_line(lines(report), j),
    ensures
        wifi_name(report) == strip_trailing(trim(lines(report)[j]), ':'),
{
    let ls = lines(report);
    let c = choose|c: int| first_network_line(ls, c);
    if c < j {
        assert(!names_network(ls, c));
    }
    if j < c {
        assert(!names_network(ls, j));
    }
}

} // verus!
