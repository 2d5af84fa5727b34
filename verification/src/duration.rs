use crate::strings::{decimal, digit_char, digit_of, push_decimal};
use vstd::prelude::*;

verus! {

/// Nanoseconds in one second.
pub const NANOS_PER_SEC: u32 = 1_000_000_000;

/// Nanoseconds in one millisecond.
pub const NANOS_PER_MILLI: u32 = 1_000_000;

/// Nanoseconds in one microsecond.
pub const NANOS_PER_MICRO: u32 = 1_000;

/// A span of time: whole seconds and the nanoseconds of the second that has begun.
///
/// The model of a `Duration` is its length in nanoseconds, a natural number.
#[derive(Debug, Clone, Copy)]
pub struct Duration {
    secs: u64,
    nanos: u32,
}

impl View for Duration {
    type V = nat;

    closed spec fn view(&self) -> nat {
        (self.secs as nat) * (NANOS_PER_SEC as nat) + (self.nanos as nat)
    }
}

impl DeepView for Duration {
    type V = nat;

    open spec fn deep_view(&self) -> nat {
        self@
    }
}

impl Duration {
    #[verifier::type_invariant]
    spec fn subsec_in_range(self) -> bool {
        self.nanos < NANOS_PER_SEC
    }

    /// A duration of `secs` seconds and `nanos` nanoseconds. Nanoseconds beyond one second
    /// are carried into the seconds; a total beyond what fits is held at the longest span.
    pub fn new(secs: u64, nanos: u32) -> (d: Duration)
        ensures
            d@ == saturated(secs as nat * 1_000_000_000 + nanos as nat),
    {
        let carry: u64 = (nanos / NANOS_PER_SEC) as u64;
        let rest: u32 = nanos % NANOS_PER_SEC;
        if secs <= u64::MAX - carry {
            let whole: u64 = secs + carry;
            assert(whole as nat * (NANOS_PER_SEC as nat) + rest as nat == secs as nat * (
            NANOS_PER_SEC as nat) + nanos as nat) by (nonlinear_arith)
                requires
                    whole == secs + carry,
                    carry == nanos / NANOS_PER_SEC,
                    rest == nanos % NANOS_PER_SEC,
            ;
            Duration { secs: whole, nanos: rest }
        } else {
            Duration { secs: u64::MAX, nanos: NANOS_PER_SEC - 1 }
        }
    }

    /// A duration of `secs` whole seconds.
    pub fn from_secs(secs: u64) -> (d: Duration)
        ensures
            d@ == secs as nat * 1_000_000_000,
    {
        Duration { secs, nanos: 0 }
    }

    /// A duration of `millis` milliseconds.
    pub fn from_millis(millis: u64) -> (d: Duration)
        ensures
            d@ == millis as nat * 1_000_000,
    {
        let secs: u64 = millis / 1000;
        let rest: u32 = (millis % 1000) as u32;
        let nanos: u32 = rest * NANOS_PER_MILLI;
        assert(secs as nat * 1_000_000_000 + nanos as nat == millis as nat * 1_000_000) by {
            assert(millis == 1000 * secs + rest);
        }
        Duration { secs, nanos }
    }

    /// A duration of `micros` microseconds.
    pub fn from_micros(micros: u64) -> (d: Duration)
        ensures
            d@ == micros as nat * 1_000,
    {
        let secs: u64 = micros / 1_000_000;
        let rest: u32 = (micros % 1_000_000) as u32;
        let nanos: u32 = rest * NANOS_PER_MICRO;
        assert(secs as nat * 1_000_000_000 + nanos as nat == micros as nat * 1_000) by {
            assert(micros == 1_000_000 * secs + rest);
        }
        Duration { secs, nanos }
    }

    /// A duration of `nanos` nanoseconds.
    pub fn from_nanos(nanos: u64) -> (d: Duration)
        ensures
            d@ == nanos as nat,
    {
        let secs: u64 = nanos / 1_000_000_000;
        let rest: u32 = (nanos % 1_000_000_000) as u32;
        assert(nanos == 1_000_000_000 * secs + rest);
        Duration { secs, nanos: rest }
    }

    /// The sum of two durations, held at the longest span where it would lie beyond it.
    pub fn saturating_add(self, other: Duration) -> (sum: Duration)
        ensures
            sum@ == saturated(self@ + other@),
    {
        proof {
            use_type_invariant(self);
            use_type_invariant(other);
        }
        let nanos: u32 = self.nanos + other.nanos;
        let carry: u64 = if nanos >= NANOS_PER_SEC {
            1
        } else {
            0
        };
        let rest: u32 = if nanos >= NANOS_PER_SEC {
            nanos - NANOS_PER_SEC
        } else {
            nanos
        };
        if self.secs <= u64::MAX - other.secs && self.secs + other.secs <= u64::MAX - carry {
            Duration { secs: self.secs + other.secs + carry, nanos: rest }
        } else {
            Duration { secs: u64::MAX, nanos: NANOS_PER_SEC - 1 }
        }
    }

    /// The whole seconds of the duration.
    pub fn as_secs(&self) -> (secs: u64)
        ensures
            secs as nat == self@ / 1_000_000_000,
    {
        proof {
            use_type_invariant(self);
            assert((self.secs as nat * 1_000_000_000 + self.nanos as nat) / 1_000_000_000
                == self.secs as nat) by (nonlinear_arith)
                requires
                    self.nanos < 1_000_000_000,
            ;
        }
        self.secs
    }

    /// The part of the duration below one second, in nanoseconds.
    pub fn subsec_nanos(&self) -> (nanos: u32)
        ensures
            nanos as nat == self@ % 1_000_000_000,
    {
        proof {
            use_type_invariant(self);
            assert((self.secs as nat * 1_000_000_000 + self.nanos as nat) % 1_000_000_000
                == self.nanos as nat) by (nonlinear_arith)
                requires
                    self.nanos < 1_000_000_000,
            ;
        }
        self.nanos
    }

    /// The whole duration in nanoseconds.
    pub fn as_nanos(&self) -> (nanos: u128)
        ensures
            nanos as nat == self@,
    {
        proof {
            use_type_invariant(self);
        }
        (self.secs as u128) * 1_000_000_000 + (self.nanos as u128)
    }
}

/// The longest span a [`Duration`] holds, in nanoseconds.
pub open spec fn longest() -> nat {
    u64::MAX as nat * 1_000_000_000 + 999_999_999
}

/// `nanos`, or the longest span where `nanos` lies beyond it.
pub open spec fn saturated(nanos: nat) -> nat {
    if nanos <= longest() {
        nanos
    } else {
        longest()
    }
}

/// `n` divided by `d`, rounded to the nearest whole number, halves upward.
pub open spec fn rounded_div(n: nat, d: nat) -> nat
    recommends
        d > 0,
{
    (n + d / 2) / d
}

/// `hundredths` written with two decimal places: 1234 is `12.34`, 5 is `0.05`.
pub open spec fn fixed2(hundredths: nat) -> Seq<char> {
    decimal(hundredths / 100).push('.').push(digit_char(hundredths / 10 % 10)).push(
        digit_char(hundredths % 10),
    )
}

/// `thousandths` written with three decimal places: 12 is `0.012`.
pub open spec fn fixed3(thousandths: nat) -> Seq<char> {
    decimal(thousandths / 1000).push('.').push(digit_char(thousandths / 100 % 10)).push(
        digit_char(thousandths / 10 % 10),
    ).push(digit_char(thousandths % 10))
}

/// How a duration of `nanos` nanoseconds reads in a report: below one second in
/// milliseconds, from one second on in seconds, both with two decimal places.
pub open spec fn duration_text(nanos: nat) -> Seq<char> {
    if nanos < 1_000_000_000 {
        fixed2(rounded_div(nanos, 10_000)).push('m').push('s')
    } else {
        fixed2(rounded_div(nanos, 10_000_000)).push('s')
    }
}

/// A duration of `nanos` nanoseconds in seconds with three decimal places.
pub open spec fn seconds_text(nanos: nat) -> Seq<char> {
    fixed3(rounded_div(nanos, 1_000_000))
}

fn push_fixed2(out: &mut String, hundredths: u128)
    ensures
        final(out)@ == old(out)@ + fixed2(hundredths as nat),
{
    push_decimal(out, hundredths / 100);
    out.push('.');
    out.push(digit_of((hundredths / 10 % 10) as u8));
    out.push(digit_of((hundredths % 10) as u8));
    assert(out@ =~= old(out)@ + fixed2(hundredths as nat));
}

fn push_fixed3(out: &mut String, thousandths: u128)
    ensures
        final(out)@ == old(out)@ + fixed3(thousandths as nat),
{
    push_decimal(out, thousandths / 1000);
    out.push('.');
    out.push(digit_of((thousandths / 100 % 10) as u8));
    out.push(digit_of((thousandths / 10 % 10) as u8));
    out.push(digit_of((thousandths % 10) as u8));
    assert(out@ =~= old(out)@ + fixed3(thousandths as nat));
}

/// Appends the report form of `d` to `out`.
pub fn push_duration(out: &mut String, d: Duration)
    ensures
        final(out)@ == old(out)@ + duration_text(d@),
{
    let nanos: u128 = d.as_nanos();
    if nanos < 1_000_000_000 {
        push_fixed2(out, (nanos + 5_000) / 10_000);
        out.push('m');
        out.push('s');
    } else {
        push_fixed2(out, (nanos + 5_000_000) / 10_000_000);
        out.push('s');
    }
    assert(out@ =~= old(out)@ + duration_text(d@));
}

/// The report form of a duration: `48.00ms`, `0.17ms`, `1.50s`.
pub fn format_duration(d: Duration) -> (text: String)
    ensures
        text@ == duration_text(d@),
{
    let mut text = String::new();
    push_duration(&mut text, d);
    assert(text@ =~= duration_text(d@));
    text
}

/// Appends `d` in seconds with three decimal places to `out`.
pub fn push_seconds(out: &mut String, d: Duration)
    ensures
        final(out)@ == old(out)@ + seconds_text(d@),
{
    let nanos: u128 = d.as_nanos();
    push_fixed3(out, (nanos + 500_000) / 1_000_000);
}

} // verus!
