//! Aggregation helpers for benchmark runs of the protocol: the mode under
//! measurement and running totals of durations in nanoseconds.

use vstd::prelude::*;

verus! {

/// Which channels a benchmark run exercises on top of the signing core.
#[derive(Clone, Copy, Debug, PartialEq, Eq, Structural)]
pub enum Mode {
    Baseline,
    Vc,
    VcTimed,
    VcTimedTracing,
}

impl Mode {
    /// The label of the mode in result lines.
    pub fn name(&self) -> (r: &'static str)
        ensures
            r@ == self.spec_name(),
    {
        match self {
            Mode::Baseline => "baseline",
            Mode::Vc => "vc",
            Mode::VcTimed => "vc+timed",
            Mode::VcTimedTracing => "vc+timed+tracing",
        }
    }

    /// The label of the mode in result lines.
    pub open spec fn spec_name(&self) -> Seq<char> {
        match self {
            Mode::Baseline => "baseline"@,
            Mode::Vc => "vc"@,
            Mode::VcTimed => "vc+timed"@,
            Mode::VcTimedTracing => "vc+timed+tracing"@,
        }
    }
}

/// Add a duration in nanoseconds to a running total.
pub fn add(a: &mut u64, b: u64)
    requires
        *old(a) + b <= u64::MAX,
    ensures
        *final(a) == *old(a) + b,
{
    *a = *a + b;
}

/// The average of a total over `n` runs, in nanoseconds; a total over zero
/// runs is returned unchanged.
pub fn avg(d: u64, n: usize) -> (r: u64)
    ensures
        r == if n == 0 {
            d as int
        } else {
            d as int / n as int
        },
{
    if n == 0 {
        d
    } else {
        d / (n as u64)
    }
}

} // verus!
