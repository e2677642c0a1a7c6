//! The tracker's tunable parameters and the rules they must meet.
use vstd::prelude::*;

use crate::history::HISTORY_SIZE;

verus! {

/// Tunable parameters of a tracker. Ratios are given as numerator and
/// denominator.
#[derive(Clone, Copy, Debug, PartialEq, Eq, Structural)]
pub struct Config {
    /// Samples per second.
    pub sample_rate: u32,
    /// Frequency, in hertz, whose period is the first guess of a search.
    pub initial_frequency: u32,
    /// Longest period that a search tries.
    pub max_delay: usize,
    /// Relative tolerance of the check one period further back.
    pub tolerance_num: u32,
    pub tolerance_den: u32,
    /// While tracking, the period stays between `clamp_low_num / clamp_den`
    /// and `clamp_high_num / clamp_den` times the confirmed period.
    pub clamp_low_num: u32,
    pub clamp_high_num: u32,
    pub clamp_den: u32,
    /// A window whose energy exceeds this many times the running average
    /// starts a new search.
    pub onset_factor: u32,
}

/// Why a configuration cannot drive a tracker.
#[derive(Clone, Copy, Debug, PartialEq, Eq, Structural)]
pub enum ConfigError {
    ZeroSampleRate,
    ZeroFrequency,
    ZeroDenominator,
    ClampOutOfOrder,
    MaxDelayTooLarge,
    InitialDelayOutOfRange,
}

impl Config {
    /// `sample_rate / initial_frequency`, rounded to the nearest integer.
    pub open spec fn initial_delay_spec(self) -> int {
        (2 * self.sample_rate + self.initial_frequency) / (2 * self.initial_frequency)
    }

    /// `floor(anchor * clamp_low_num / clamp_den)`.
    pub open spec fn band_low(self, anchor: int) -> int {
        anchor * self.clamp_low_num / (self.clamp_den as int)
    }

    /// `ceil(anchor * clamp_high_num / clamp_den)`.
    pub open spec fn band_high(self, anchor: int) -> int {
        (anchor * self.clamp_high_num + self.clamp_den - 1) / (self.clamp_den as int)
    }

    /// The first rule that the configuration breaks, if any.
    pub open spec fn error_spec(self) -> Option<ConfigError> {
        if self.sample_rate == 0 {
            Some(ConfigError::ZeroSampleRate)
        } else if self.initial_frequency == 0 {
            Some(ConfigError::ZeroFrequency)
        } else if self.tolerance_den == 0 || self.clamp_den == 0 {
            Some(ConfigError::ZeroDenominator)
        } else if self.clamp_low_num > self.clamp_den || self.clamp_high_num < self.clamp_den {
            Some(ConfigError::ClampOutOfOrder)
        } else if 3 * self.max_delay >= HISTORY_SIZE || 2 * self.band_high(
            self.max_delay as int,
        ) >= HISTORY_SIZE {
            Some(ConfigError::MaxDelayTooLarge)
        } else if self.initial_delay_spec() > self.max_delay || self.band_low(
            self.initial_delay_spec(),
        ) < 1 {
            Some(ConfigError::InitialDelayOutOfRange)
        } else {
            None
        }
    }

    pub open spec fn valid(self) -> bool {
        self.error_spec() is None
    }

    /// The usual settings: a first guess of 400 Hz, periods up to 600
    /// samples, a tolerance of 1/400, a band of 4/5 to 6/5 and an onset at
    /// four times the average energy.
    pub fn standard(sample_rate: u32) -> (r: Config)
        ensures
            r.sample_rate == sample_rate,
            r.initial_frequency == 400,
            r.max_delay == 600,
            r.tolerance_num == 1 && r.tolerance_den == 400,
            r.clamp_low_num == 4 && r.clamp_high_num == 6 && r.clamp_den == 5,
            r.onset_factor == 4,
    {
        Config {
            sample_rate,
            initial_frequency: 400,
            max_delay: 600,
            tolerance_num: 1,
            tolerance_den: 400,
            clamp_low_num: 4,
            clamp_high_num: 6,
            clamp_den: 5,
            onset_factor: 4,
        }
    }

    /// `floor(anchor * clamp_low_num / clamp_den)`.
    pub fn low_bound(&self, anchor: usize) -> (r: usize)
        requires
            self.clamp_den > 0,
            self.clamp_low_num <= self.clamp_den,
            anchor < HISTORY_SIZE,
        ensures
            r as int == self.band_low(anchor as int),
            r <= anchor,
    {
        proof {
            assert(anchor as int * self.clamp_low_num <= 0x800_0000_0000) by (nonlinear_arith)
                requires
                    anchor < 2048,
                    self.clamp_low_num < 0x1_0000_0000,
            ;
        }
        let p = anchor as u64 * self.clamp_low_num as u64;
        proof {
            assert(p <= anchor as int * self.clamp_den) by (nonlinear_arith)
                requires
                    p == anchor as int * self.clamp_low_num,
                    self.clamp_low_num <= self.clamp_den,
                    0 <= anchor,
            ;
            assert((p as int) / (self.clamp_den as int) <= anchor) by (nonlinear_arith)
                requires
                    p <= anchor as int * self.clamp_den,
                    self.clamp_den > 0,
                    0 <= p,
            ;
        }
        (p / self.clamp_den as u64) as usize
    }

    /// `ceil(anchor * clamp_high_num / clamp_den)`.
    pub fn high_bound(&self, anchor: usize) -> (r: u64)
        requires
            self.clamp_den > 0,
            anchor < HISTORY_SIZE,
        ensures
            r as int == self.band_high(anchor as int),
            r <= 0x1000_0000_0000,
    {
        proof {
            assert(anchor as int * self.clamp_high_num <= 0x800_0000_0000) by (nonlinear_arith)
                requires
                    anchor < 2048,
                    self.clamp_high_num < 0x1_0000_0000,
            ;
        }
        let p = anchor as u64 * self.clamp_high_num as u64;
        let q = p + self.clamp_den as u64 - 1;
        proof {
            assert((q as int) / (self.clamp_den as int) <= q) by (nonlinear_arith)
                requires
                    self.clamp_den >= 1,
                    q >= 0,
            ;
        }
        q / self.clamp_den as u64
    }

    /// `sample_rate / initial_frequency`, rounded to the nearest integer.
    pub fn initial_delay(&self) -> (r: u64)
        requires
            self.initial_frequency > 0,
        ensures
            r as int == self.initial_delay_spec(),
            r <= self.sample_rate,
    {
        let f = self.initial_frequency as u64;
        let s = self.sample_rate as u64;
        proof {
            assert((2 * s + f) / (2 * f) <= s) by (nonlinear_arith)
                requires
                    f >= 1,
                    s >= 0,
            ;
        }
        (2 * s + f) / (2 * f)
    }

    /// Checks the configuration, giving the first rule it breaks.
    pub fn validate(&self) -> (r: Result<(), ConfigError>)
        ensures
            r is Ok <==> self.valid(),
            r matches Err(e) ==> self.error_spec() == Some(e),
    {
        if self.sample_rate == 0 {
            return Err(ConfigError::ZeroSampleRate);
        }
        if self.initial_frequency == 0 {
            return Err(ConfigError::ZeroFrequency);
        }
        if self.tolerance_den == 0 || self.clamp_den == 0 {
            return Err(ConfigError::ZeroDenominator);
        }
        if self.clamp_low_num > self.clamp_den || self.clamp_high_num < self.clamp_den {
            return Err(ConfigError::ClampOutOfOrder);
        }
        if self.max_delay >= HISTORY_SIZE || 3 * self.max_delay >= HISTORY_SIZE
            || 2 * self.high_bound(self.max_delay) >= HISTORY_SIZE as u64 {
            return Err(ConfigError::MaxDelayTooLarge);
        }
        let init = self.initial_delay();
        if init > self.max_delay as u64 || self.low_bound(init as usize) < 1 {
            return Err(ConfigError::InitialDelayOutOfRange);
        }
        Ok(())
    }
}

} // verus!
