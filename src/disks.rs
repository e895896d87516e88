//! Device numbers: the `major:minor` pair that the `dev` attribute holds.
use vstd::prelude::*;
use crate::text::{
    chars_of, decimal_value, is_decimal, parse_decimal, trim, trimmed, unsigned_digits,
};

pub mod major;

pub use self::major::{major_of, Major};

verus! {

/// The major and minor number of a device.
#[derive(Debug, Copy, Clone, PartialEq, Eq, Structural)]
pub struct DeviceNumber {
    pub major: Major,
    pub minor: u16,
}

/// What the driver reports of a device.
#[derive(Debug, Clone)]
pub struct Device {
    pub model: String,
}

/// The text was not `major:minor` with a major number that fits in 32 bits and
/// a minor number that fits in 16.
#[derive(Debug, Copy, Clone, PartialEq, Eq, Structural)]
pub struct ParseDeviceNumberError;

/// The first index at or after `i` that holds `:`, or `s.len()`.
pub open spec fn find_colon(s: Seq<char>, i: int) -> int
    decreases s.len() - i,
{
    if i < s.len() && s[i] != ':' {
        find_colon(s, i + 1)
    } else {
        i
    }
}

/// The number that `s` denotes when it is decimal (after an optional `+`) and
/// at most `max`.
pub open spec fn number_within(s: Seq<char>, max: nat) -> Option<nat> {
    if is_decimal(unsigned_digits(s)) && decimal_value(unsigned_digits(s)) <= max {
        Some(decimal_value(unsigned_digits(s)))
    } else {
        None
    }
}

/// The (major, minor) pair that `s` holds: after trimming, a decimal major
/// number, `:`, and a decimal minor number that runs to the next `:` or the end.
pub open spec fn device_number_of(s: Seq<char>) -> Option<(nat, nat)> {
    let t = trim(s);
    let c = find_colon(t, 0);
    let c2 = find_colon(t, c + 1);
    if c >= t.len() {
        None
    } else {
        match (
            number_within(t.subrange(0, c), u32::MAX as nat),
            number_within(t.subrange(c + 1, c2), u16::MAX as nat),
        ) {
            (Some(a), Some(b)) => Some((a, b)),
            _ => None,
        }
    }
}

fn find_colon_from(s: &Vec<char>, i: usize) -> (r: usize)
    requires
        i <= s@.len(),
    ensures
        r == find_colon(s@, i as int),
        i <= r <= s@.len(),
{
    let mut k = i;
    while k < s.len() && s[k] != ':'
        invariant
            i <= k <= s@.len(),
            find_colon(s@, k as int) == find_colon(s@, i as int),
        decreases s@.len() - k,
    {
        k = k + 1;
    }
    k
}

impl DeviceNumber {
    /// Parses `major:minor`, as the `dev` attribute writes it.
    pub fn from_str(s: &str) -> (r: Result<DeviceNumber, ParseDeviceNumberError>)
        ensures
            r is Ok <==> device_number_of(s@) is Some,
            r matches Ok(d) ==> device_number_of(s@) matches Some((a, b)) && d.major == major_of(
                a as u32,
            ) && d.minor == b,
    {
        let t = trimmed(s);
        let cs = chars_of(t.as_str());
        let c = find_colon_from(&cs, 0);
        if c >= cs.len() {
            return Err(ParseDeviceNumberError);
        }
        let c2 = find_colon_from(&cs, c + 1);
        let major = parse_decimal(t.as_str().substring_char(0, c));
        let minor = parse_decimal(t.as_str().substring_char(c + 1, c2));
        match (major, minor) {
            (Some(a), Some(b)) => {
                if a <= u32::MAX as u64 && b <= u16::MAX as u64 {
                    Ok(DeviceNumber { major: Major::from(a as u32), minor: b as u16 })
                } else {
                    Err(ParseDeviceNumberError)
                }
            },
            _ => Err(ParseDeviceNumberError),
        }
    }
}

} // verus!
