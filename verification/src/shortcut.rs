use vstd::prelude::*;

use crate::text::{chars_of, all_digits, digits_value, parse_unsigned, parse_unsigned_str, trim, trim_str};

verus! {

/// `str::parse::<i32>`: an optional sign, then one or more decimal digits whose value fits.
pub open spec fn parse_i32(s: Seq<char>) -> Option<int> {
    if s.len() > 0 && s[0] == '-' {
        let d = s.drop_first();
        if d.len() > 0 && all_digits(d) && digits_value(d) <= 0x8000_0000 {
            Some(-(digits_value(d) as int))
        } else {
            None
        }
    } else {
        match parse_unsigned(s, 0x7fff_ffff) {
            Some(n) => Some(n as int),
            None => None,
        }
    }
}

/// The number of shortcuts that the injection script reports changed: its output, trimmed,
/// read as an `i32`; 0 where it is not one.
pub open spec fn injected_count(stdout: Seq<char>) -> int {
    match parse_i32(trim(stdout)) {
        Some(n) => n,
        None => 0,
    }
}

/// Whether injecting the debugging flags into Antigravity's desktop shortcuts changed any.
/// `script_output` is what the PowerShell script printed, or nothing where it could not be run
/// (and on systems without such shortcuts).
pub fn try_inject_shortcut_debugging_port(script_output: Option<&str>) -> (r: bool)
    ensures
        r == match script_output {
            Some(out) => injected_count(out@) > 0,
            None => false,
        },
{
    match script_output {
        None => false,
        Some(out) => {
            let t = trim_str(out);
            let s = t.as_str();
            let ghost ts = trim(out@);
            let v = chars_of(s);
            if v.len() > 0 && v[0] == '-' {
                proof {
                    assert(ts.len() > 0 && ts[0] == '-');
                }
                false
            } else {
                let n = parse_unsigned_str(s, 0x7fff_ffff);
                match n {
                    Some(v) => v > 0,
                    None => false,
                }
            }
        },
    }
}

} // verus!
