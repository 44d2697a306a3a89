//! Time as plain nanosecond counts.

use crate::text::{decimal, digit_char, push_decimal, trim_trailing, without_trailing};
use vstd::prelude::*;
use vstd::string::*;

verus! {

/// A span of time.
#[derive(Debug, Clone, Copy, PartialEq, Eq, Structural)]
pub struct Duration {
    pub nanos: u128,
}

/// A reading of a monotonic clock.
#[derive(Debug, Clone, Copy, PartialEq, Eq, Structural)]
pub struct Instant {
    pub nanos: u128,
}

/// The longest span: 2^64 - 1 seconds and 999999999 nanoseconds.
pub const MAX_NANOS: u128 = 18_446_744_073_709_551_615_999_999_999;

/// A number of nanoseconds, cut to the longest span.
pub open spec fn saturated(nanos: int) -> int {
    if nanos <= MAX_NANOS {
        nanos
    } else {
        MAX_NANOS as int
    }
}

/// What is left of a span after some nanoseconds, or nothing.
pub open spec fn left_of(span: Duration, nanos: nat) -> nat {
    if span.nanos >= nanos {
        (span.nanos - nanos) as nat
    } else {
        0
    }
}

/// The smaller of two numbers.
pub open spec fn shorter(a: nat, b: nat) -> nat {
    if a <= b {
        a
    } else {
        b
    }
}

impl Duration {
    pub fn from_secs(secs: u64) -> (d: Duration)
        ensures
            d.nanos == secs * 1_000_000_000,
    {
        Duration { nanos: secs as u128 * 1_000_000_000 }
    }

    pub fn from_millis(millis: u64) -> (d: Duration)
        ensures
            d.nanos == millis * 1_000_000,
    {
        Duration { nanos: millis as u128 * 1_000_000 }
    }

    /// Whole seconds, rounded down.
    pub fn as_secs(&self) -> (n: u128)
        ensures
            n == self.nanos / 1_000_000_000,
    {
        self.nanos / 1_000_000_000
    }

    /// Whole milliseconds, rounded down.
    pub fn as_millis(&self) -> (n: u128)
        ensures
            n == self.nanos / 1_000_000,
    {
        self.nanos / 1_000_000
    }

    /// The span taken several times, cut to the longest span.
    pub fn saturating_mul(&self, factor: u32) -> (d: Duration)
        ensures
            d.nanos == saturated(self.nanos * factor),
    {
        match self.nanos.checked_mul(factor as u128) {
            Some(n) => if n <= MAX_NANOS {
                Duration { nanos: n }
            } else {
                Duration { nanos: MAX_NANOS }
            },
            None => Duration { nanos: MAX_NANOS },
        }
    }

    /// What is left of the span after `other`, or nothing.
    pub fn saturating_sub(&self, other: Duration) -> (d: Duration)
        ensures
            d.nanos == left_of(*self, other.nanos as nat),
    {
        if self.nanos >= other.nanos {
            Duration { nanos: self.nanos - other.nanos }
        } else {
            Duration { nanos: 0 }
        }
    }

    /// The shorter of two spans.
    pub fn min(self, other: Duration) -> (d: Duration)
        ensures
            d.nanos == shorter(self.nanos as nat, other.nanos as nat),
    {
        if self.nanos <= other.nanos {
            self
        } else {
            other
        }
    }

    pub fn is_zero(&self) -> (b: bool)
        ensures
            b == (self.nanos == 0),
    {
        self.nanos == 0
    }
}

/// The time from `earlier` to `later`, or none when `later` is not later.
pub open spec fn elapsed(earlier: Instant, later: Instant) -> nat {
    if later.nanos >= earlier.nanos {
        (later.nanos - earlier.nanos) as nat
    } else {
        0
    }
}

impl Instant {
    pub fn saturating_duration_since(&self, earlier: Instant) -> (d: Duration)
        ensures
            d.nanos == elapsed(earlier, *self),
    {
        if self.nanos >= earlier.nanos {
            Duration { nanos: self.nanos - earlier.nanos }
        } else {
            Duration { nanos: 0 }
        }
    }
}

// ---------------------------------------------------------------------------
// Spans as text
// ---------------------------------------------------------------------------

/// The low `width` decimal digits of `n`.
pub open spec fn padded_decimal(n: nat, width: nat) -> Seq<char>
    decreases width,
{
    if width == 0 {
        Seq::empty()
    } else {
        padded_decimal(n / 10, (width - 1) as nat).push(digit_char((n % 10) as int))
    }
}

/// A number with a fraction, without zeros at its end.
pub open spec fn fraction_text(whole: nat, fraction: nat, width: nat) -> Seq<char> {
    if fraction == 0 {
        decimal(whole)
    } else {
        decimal(whole) + "."@ + without_trailing(padded_decimal(fraction, width), '0')
    }
}

/// A span in the largest unit that it holds one of.
pub open spec fn duration_text(d: Duration) -> Seq<char> {
    let nanos = saturated(d.nanos as int) as nat;
    if nanos >= 1_000_000_000 {
        fraction_text(nanos / 1_000_000_000, nanos % 1_000_000_000, 9) + "s"@
    } else if nanos >= 1_000_000 {
        fraction_text(nanos / 1_000_000, nanos % 1_000_000, 6) + "ms"@
    } else if nanos >= 1_000 {
        fraction_text(nanos / 1_000, nanos % 1_000, 3) + seq!['\u{b5}', 's']
    } else {
        fraction_text(nanos, 0, 0) + "ns"@
    }
}

fn push_padded(s: &mut String, n: u64, width: usize)
    ensures
        final(s)@ == old(s)@ + padded_decimal(n as nat, width as nat),
    decreases width,
{
    if width > 0 {
        push_padded(s, n / 10, width - 1);
        let d: u8 = (n % 10) as u8;
        s.push((48 + d) as char);
    }
    assert(s@ =~= old(s)@ + padded_decimal(n as nat, width as nat));
}

fn push_fraction(s: &mut String, whole: u64, fraction: u64, width: usize)
    ensures
        final(s)@ == old(s)@ + fraction_text(whole as nat, fraction as nat, width as nat),
{
    push_decimal(s, whole);
    if fraction != 0 {
        let mut digits = String::new();
        push_padded(&mut digits, fraction, width);
        assert(digits@ =~= padded_decimal(fraction as nat, width as nat));
        let bare = trim_trailing(digits.as_str(), '0');
        s.append(".");
        s.append(bare.as_str());
    }
    assert(s@ =~= old(s)@ + fraction_text(whole as nat, fraction as nat, width as nat));
}

impl Duration {
    /// The span as text, such as `1.5s` or `25ms`.
    pub fn debug_text(&self) -> (s: String)
        ensures
            s@ == duration_text(*self),
    {
        let nanos: u128 = if self.nanos <= MAX_NANOS {
            self.nanos
        } else {
            MAX_NANOS
        };
        let mut s = String::new();
        if nanos >= 1_000_000_000 {
            push_fraction(
                &mut s,
                (nanos / 1_000_000_000) as u64,
                (nanos % 1_000_000_000) as u64,
                9,
            );
            s.append("s");
        } else if nanos >= 1_000_000 {
            push_fraction(&mut s, (nanos / 1_000_000) as u64, (nanos % 1_000_000) as u64, 6);
            s.append("ms");
        } else if nanos >= 1_000 {
            push_fraction(&mut s, (nanos / 1_000) as u64, (nanos % 1_000) as u64, 3);
            s.push('\u{b5}');
            s.push('s');
        } else {
            push_fraction(&mut s, nanos as u64, 0, 0);
            s.append("ns");
        }
        assert(s@ =~= duration_text(*self));
        s
    }
}

} // verus!
