//! Formatting of sizes and durations for progress reports.

use vstd::prelude::*;
use vstd::string::StringSliceAdditionalSpecFns;

use crate::text::{decimal, decimal_text, push_char, push_text};

verus! {

/// `n` spaces.
pub open spec fn spaces(n: nat) -> Seq<char> {
    Seq::new(n, |i: int| ' ')
}

/// `text` right-aligned in a field of `size` bytes.
pub fn left_pad(text: &str, size: usize) -> (r: String)
    requires
        text.spec_bytes().len() <= size,
    ensures
        r@ == spaces((size - text.spec_bytes().len()) as nat) + text@,
{
    let fill = size - text.len();
    let mut out = String::new();
    let mut i: usize = 0;
    while i < fill
        invariant
            0 <= i <= fill,
            out@ == spaces(i as nat),
        decreases fill - i,
    {
        push_char(&mut out, ' ');
        i = i + 1;
        assert(out@ =~= spaces(i as nat));
    }
    push_text(&mut out, text);
    out
}

/// How `seconds` reads in a progress report: seconds up to a minute, then
/// minutes (with the seconds past three), then hours (with the minutes past
/// six), then days and hours.
pub open spec fn seconds_text(seconds: nat) -> Seq<char> {
    if seconds <= 60 {
        decimal(seconds) + "s"@
    } else if seconds / 60 <= 60 {
        let minutes = seconds / 60;
        if seconds % 60 > 2 {
            decimal(minutes) + "min "@ + decimal(seconds % 60) + "s"@
        } else {
            decimal(minutes) + "min"@
        }
    } else if seconds / 3600 <= 24 {
        let hours = seconds / 3600;
        let minutes = (seconds / 60) % 60;
        if minutes > 5 {
            decimal(hours) + "h "@ + decimal(minutes) + "min"@
        } else {
            decimal(hours) + "h"@
        }
    } else {
        decimal(seconds / 3600 / 24) + "d "@ + decimal((seconds / 3600) % 24) + "h"@
    }
}

fn join2(a: usize, unit_a: &str) -> (r: String)
    ensures
        r@ == decimal(a as nat) + unit_a@,
{
    let mut out = decimal_text(a);
    push_text(&mut out, unit_a);
    out
}

fn join4(a: usize, unit_a: &str, b: usize, unit_b: &str) -> (r: String)
    ensures
        r@ == decimal(a as nat) + unit_a@ + decimal(b as nat) + unit_b@,
{
    let mut out = join2(a, unit_a);
    let tail = decimal_text(b);
    push_text(&mut out, tail.as_str());
    push_text(&mut out, unit_b);
    out
}

/// A duration in seconds as a short human-readable text.
pub fn format_seconds(seconds: usize) -> (r: String)
    ensures
        r@ == seconds_text(seconds as nat),
{
    if seconds <= 60 {
        return join2(seconds, "s");
    }
    let minutes = seconds / 60;
    if minutes <= 60 {
        let rest = seconds % 60;
        if rest > 2 {
            return join4(minutes, "min ", rest, "s");
        }
        return join2(minutes, "min");
    }
    let hours = minutes / 60;
    assert(hours == seconds / 3600) by {
        assert(seconds / 60 / 60 == seconds / 3600) by (nonlinear_arith);
    }
    if hours <= 24 {
        let rem_m = minutes % 60;
        if rem_m > 5 {
            return join4(hours, "h ", rem_m, "min");
        }
        return join2(hours, "h");
    }
    join4(hours / 24, "d ", hours % 24, "h")
}

} // verus!
