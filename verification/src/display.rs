//! Presentation helpers that are pure computation.
//!
//! Rendering itself (colors, art, terminal control) lives outside the
//! library; what is verified here is the formatting rule for the uptime
//! figure.

use vstd::prelude::*;

use crate::numerals::{fmt_u64, spec_fmt_nat};
use crate::text::{chars_to_string, push_chars, to_chars};

verus! {

/// The uptime figure as text: minutes alone under an hour, hours and
/// minutes under a day, else days, hours and minutes.
pub open spec fn spec_format_uptime(seconds: u64) -> Seq<char> {
    if seconds < 3600 {
        spec_fmt_nat((seconds as int / 60) % 60) + "m"@
    } else if seconds < 86400 {
        spec_fmt_nat(seconds as int / 3600) + "h, "@ + spec_fmt_nat((seconds as int / 60) % 60)
            + "m"@
    } else {
        spec_fmt_nat(seconds as int / 86400) + "d, "@ + spec_fmt_nat(
            (seconds as int / 3600) % 24,
        ) + "h, "@ + spec_fmt_nat((seconds as int / 60) % 60) + "m"@
    }
}

/// Format an uptime in seconds for display.
pub fn format_uptime(seconds: u64) -> (r: String)
    ensures
        r@ == spec_format_uptime(seconds),
{
    let minutes = fmt_u64(seconds / 60 % 60);
    let m_unit = to_chars("m");
    if seconds < 3600 {
        let mut out = minutes;
        push_chars(&mut out, m_unit.as_slice());
        proof {
            assert(out@ =~= spec_format_uptime(seconds));
        }
        chars_to_string(out.as_slice())
    } else if seconds < 86400 {
        let mut out = fmt_u64(seconds / 3600);
        let h_sep = to_chars("h, ");
        push_chars(&mut out, h_sep.as_slice());
        push_chars(&mut out, minutes.as_slice());
        push_chars(&mut out, m_unit.as_slice());
        proof {
            assert(out@ =~= spec_format_uptime(seconds));
        }
        chars_to_string(out.as_slice())
    } else {
        let mut out = fmt_u64(seconds / 86400);
        let d_sep = to_chars("d, ");
        let h_sep = to_chars("h, ");
        push_chars(&mut out, d_sep.as_slice());
        let hours = fmt_u64(seconds / 3600 % 24);
        push_chars(&mut out, hours.as_slice());
        push_chars(&mut out, h_sep.as_slice());
        push_chars(&mut out, minutes.as_slice());
        push_chars(&mut out, m_unit.as_slice());
        proof {
            assert(out@ =~= spec_format_uptime(seconds));
        }
        chars_to_string(out.as_slice())
    }
}

} // verus!
