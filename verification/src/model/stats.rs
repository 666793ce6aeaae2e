//! Aggregated health metrics.
use vstd::prelude::*;

verus! {

/// An IEEE-754 binary64 value, carried as its bit pattern.
///
/// The library stores and transports such values; arithmetic on them happens
/// in the program around it.
#[derive(Debug, Clone, Copy, PartialEq, Eq, Hash, Structural)]
pub struct Real64 {
    pub bits: u64,
}

impl Real64 {
    pub open spec fn spec_nan(self) -> bool {
        self.bits % 0x8000_0000_0000_0000 > 0x7ff0_0000_0000_0000
    }

    /// An integer that orders the numbers as their values do; the two zeros are
    /// the same number.
    pub open spec fn rank(self) -> int {
        if self.bits < 0x8000_0000_0000_0000 {
            self.bits as int
        } else {
            0x8000_0000_0000_0000 - self.bits
        }
    }

    /// The lesser of two; what is not a number is passed over.
    pub open spec fn spec_lesser(self, other: Real64) -> Real64 {
        if self.spec_nan() {
            other
        } else if other.spec_nan() {
            self
        } else if other.rank() < self.rank() {
            other
        } else {
            self
        }
    }

    pub fn is_nan(self) -> (r: bool)
        ensures
            r == self.spec_nan(),
    {
        self.bits % 0x8000_0000_0000_0000 > 0x7ff0_0000_0000_0000
    }

    pub fn to_rank(self) -> (r: i128)
        ensures
            r == self.rank(),
    {
        if self.bits < 0x8000_0000_0000_0000 {
            self.bits as i128
        } else {
            0x8000_0000_0000_0000 - self.bits as i128
        }
    }

    pub fn lesser(self, other: Real64) -> (r: Real64)
        ensures
            r == self.spec_lesser(other),
    {
        if self.is_nan() {
            return other;
        }
        if other.is_nan() {
            return self;
        }
        let a: i128 = self.to_rank();
        let b: i128 = other.to_rank();
        if b < a {
            other
        } else {
            self
        }
    }
}

/// Aggregated metrics for one (bucket, dimension-key) cell.
#[derive(Debug, Clone, Copy, PartialEq, Eq, Structural)]
pub struct MetricSet {
    pub calls: u64,
    pub answered: u64,
    pub failed: u64,
    pub pdd_sum_ms: Real64,
    pub pdd_n: u64,
    pub jitter_sum_ms: Real64,
    pub jitter_n: u64,
    pub loss_sum_pct: Real64,
    pub loss_n: u64,
    pub rtt_sum_ms: Real64,
    pub rtt_n: u64,
    pub mos_sum: Real64,
    pub mos_n: u64,
}

/// The metrics of one time bucket for one dimension key.
#[derive(Debug, Clone)]
pub struct HealthBucket {
    pub bucket_us: u64,
    pub dim_key: String,
    pub metrics: MetricSet,
}

} // verus!
