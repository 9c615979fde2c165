//! The battery's charge and charging state, read from a power report.

use crate::numbers::{capped_value, decimal_value, leading_digits, leading_digits_of, min_int};
use crate::text::{
    chars_of, contains, contains_char, contains_slice, lines, lines_of, slice_views, split,
    split_slice,
};
use vstd::prelude::*;

verus! {

/// The battery as a power report shows it. Where the report shows none,
/// `percent` is -1 and `charging` is false.
#[derive(Clone, Copy, Debug, PartialEq, Eq, Structural)]
pub struct Battery {
    pub percent: i64,
    pub charging: bool,
}

/// The field of a line that holds the charge: what stands between the first
/// and the second tab.
pub open spec fn charge_field(line: Seq<char>) -> Seq<char> {
    split(line, '\t')[1]
}

/// Whether a line reports the charge: it holds a percent sign and a tab, and
/// its charge field starts with a digit.
pub open spec fn reports_charge(line: Seq<char>) -> bool {
    &&& line.contains('%')
    &&& split(line, '\t').len() >= 2
    &&& leading_digits(charge_field(line)).len() > 0
}

/// Whether `j` is the first line that reports the charge.
pub open spec fn first_charge_line(ls: Seq<Seq<char>>, j: int) -> bool {
    &&& 0 <= j < ls.len()
    &&& reports_charge(ls[j])
    &&& forall|k: int| 0 <= k < j ==> !reports_charge(#[trigger] ls[k])
}

/// Whether a charge field says that the battery is charging.
pub open spec fn says_charging(field: Seq<char>) -> bool {
    contains(field, "charging"@) && !contains(field, "discharging"@)
}

/// The battery that a charge field shows: the number its leading digits
/// write, at most `i64::MAX`, and whether it says charging.
pub open spec fn battery_of_field(field: Seq<char>) -> Battery {
    Battery {
        percent: min_int(decimal_value(leading_digits(field)), i64::MAX as int) as i64,
        charging: says_charging(field),
    }
}

/// What is reported where no line reports the charge.
pub open spec fn no_battery() -> Battery {
    Battery { percent: -1i64, charging: false }
}

/// The battery that a power report shows: that of the first line that reports
/// the charge.
pub open spec fn battery_status(report: Seq<char>) -> Battery {
    let ls = lines(report);
    if exists|j: int| first_charge_line(ls, j) {
        let j = choose|j: int| first_charge_line(ls, j);
        battery_of_field(charge_field(ls[j]))
    } else {
        no_battery()
    }
}

/// Reads the battery's charge and charging state from a power report.
pub fn parse_battery(report: &str) -> (b: Battery)
    ensures
        b == battery_status(report@),
{
    let chars = chars_of(report);
    let ls = lines_of(chars.as_slice());
    let charging = chars_of("charging");
    let discharging = chars_of("discharging");
    let ghost all = lines(report@);
    let mut i: usize = 0;
    while i < ls.len()
        invariant
            i <= ls.len(),
            slice_views(ls@) == all,
            all == lines(report@),
            charging@ == "charging"@,
            discharging@ == "discharging"@,
            forall|k: int| 0 <= k < i ==> !reports_charge(#[trigger] all[k]),
        decreases ls.len() - i,
    {
        let line = ls[i];
        assert(line@ == all[i as int]);
        if contains_char(line, '%') {
            let parts = split_slice(line, '\t');
            if parts.len() >= 2 {
                let field = parts[1];
                assert(field@ == slice_views(parts@)[1]);
                let digits = leading_digits_of(field);
                if digits.len() > 0 {
                    let value = capped_value(digits, 0x7fff_ffff_ffff_ffff);
                    let is_charging = contains_slice(field, charging.as_slice())
                        && !contains_slice(field, discharging.as_slice());
                    proof {
                        assert(first_charge_line(all, i as int));
                        let j = choose|j: int| first_charge_line(all, j);
                        assert(j == i) by {
                            if j < i {
                                assert(!reports_charge(all[j]));
                            }
                            if i < j {
                                assert(!reports_charge(all[i as int]));
                            }
                        }
                    }
                    return Battery { percent: value as i64, charging: is_charging };
                }
            }
        }
        i += 1;
    }
    assert(forall|j: int| !first_charge_line(all, j));
    Battery { percent: -1, charging: false }
}

} // verus!
