use vstd::prelude::*;

verus! {

/// One in parts per million: the neutral compensation factor.
pub const UNITY_PPM: u32 = 1_000_000;

/// A compensation is recorded only when it differs from unity by more than
/// this many parts per million (0.01 %).
pub const COMPENSATION_EPSILON_PPM: u32 = 100;

/// `a + b`, capped at the largest `u64`.
pub open spec fn sat_add_u64(a: nat, b: nat) -> nat {
    if a + b > u64::MAX {
        u64::MAX as nat
    } else {
        a + b
    }
}

/// `|c - 1|` for a factor in parts per million.
pub open spec fn deviation(c: nat) -> nat {
    if c >= UNITY_PPM {
        (c - UNITY_PPM) as nat
    } else {
        (UNITY_PPM - c) as nat
    }
}

/// Running statistics of one stream's observed drift (in 48 kHz samples) and
/// of the compensation applied to it (in parts per million).
#[derive(Debug, Clone, Copy)]
pub struct DriftStats {
    pub max_drift: u64,
    pub total_drift: u64,
    pub drift_samples: usize,
    pub max_compensation: u32,
    pub total_compensation: u64,
    pub compensation_samples: usize,
}

impl DriftStats {
    /// Statistics with nothing recorded.
    pub open spec fn new_spec() -> Self {
        DriftStats {
            max_drift: 0,
            total_drift: 0,
            drift_samples: 0,
            max_compensation: UNITY_PPM,
            total_compensation: 0,
            compensation_samples: 0,
        }
    }

    pub fn new() -> (r: Self)
        ensures
            r == Self::new_spec(),
    {
        DriftStats {
            max_drift: 0,
            total_drift: 0,
            drift_samples: 0,
            max_compensation: UNITY_PPM,
            total_compensation: 0,
            compensation_samples: 0,
        }
    }

    /// Records one drift measurement of magnitude `drift` samples.
    pub fn update_drift(&mut self, drift: u64)
        ensures
            final(self).max_drift == crate::max_nat(old(self).max_drift as nat, drift as nat),
            final(self).total_drift == sat_add_u64(old(self).total_drift as nat, drift as nat),
            final(self).drift_samples == crate::sat_add(old(self).drift_samples as nat, 1),
            final(self).max_compensation == old(self).max_compensation,
            final(self).total_compensation == old(self).total_compensation,
            final(self).compensation_samples == old(self).compensation_samples,
    {
        if drift > self.max_drift {
            self.max_drift = drift;
        }
        self.total_drift = self.total_drift.saturating_add(drift);
        self.drift_samples = self.drift_samples.saturating_add(1);
    }

    /// Records a compensation factor `compensation` (parts per million) when it
    /// differs from unity by more than the epsilon; otherwise nothing changes.
    pub fn update_compensation(&mut self, compensation: u32)
        ensures
            deviation(compensation as nat) > COMPENSATION_EPSILON_PPM ==> {
                &&& final(self).max_compensation == crate::max_nat(
                    old(self).max_compensation as nat,
                    (deviation(compensation as nat) + UNITY_PPM) as nat,
                )
                &&& final(self).total_compensation == sat_add_u64(
                    old(self).total_compensation as nat,
                    compensation as nat,
                )
                &&& final(self).compensation_samples == crate::sat_add(
                    old(self).compensation_samples as nat,
                    1,
                )
            },
            deviation(compensation as nat) <= COMPENSATION_EPSILON_PPM ==> *final(self) == *old(
                self,
            ),
            final(self).max_drift == old(self).max_drift,
            final(self).total_drift == old(self).total_drift,
            final(self).drift_samples == old(self).drift_samples,
    {
        let dev = if compensation >= UNITY_PPM {
            compensation - UNITY_PPM
        } else {
            UNITY_PPM - compensation
        };
        if dev > COMPENSATION_EPSILON_PPM {
            let magnitude = dev + UNITY_PPM;
            if magnitude > self.max_compensation {
                self.max_compensation = magnitude;
            }
            self.total_compensation = self.total_compensation.saturating_add(compensation as u64);
            self.compensation_samples = self.compensation_samples.saturating_add(1);
        }
    }
}

} // verus!
