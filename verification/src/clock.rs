//! Clock readings used by the scheduler: the cycle counter, the uptime and
//! the calibrated number of cycles per millisecond.
use vstd::prelude::*;

verus! {

/// `x * y` modulo 2^64.
pub open spec fn wmul64(x: u64, y: u64) -> u64 {
    vstd::wrapping::u64_specs::wrapping_mul(x, y)
}

/// The latest clock readings.
#[derive(Debug, Clone, Copy)]
pub struct ClockState {
    /// Cycle counter (TSC) reading.
    pub tsc: u64,
    /// Monotonic uptime in ticks.
    pub uptime: u64,
    /// Calibrated cycles per millisecond.
    pub tsc_per_ms: u64,
    /// The CPU these readings were taken on.
    pub cpu: u32,
    /// Load of that CPU, in percent.
    pub cpu_load: u32,
}

/// Cycles per millisecond assumed before calibration.
pub const DEFAULT_TSC_PER_MS: u64 = 1_000_000;

impl ClockState {
    /// The readings at boot.
    pub open spec fn new_spec() -> ClockState {
        ClockState { tsc: 0, uptime: 0, tsc_per_ms: DEFAULT_TSC_PER_MS, cpu: 0, cpu_load: 0 }
    }

    /// Readings at boot: zero counters, default calibration, CPU 0 idle.
    pub fn new() -> (r: ClockState)
        ensures
            r == ClockState::new_spec(),
            r.tsc == 0,
            r.uptime == 0,
            r.tsc_per_ms == DEFAULT_TSC_PER_MS,
    {
        ClockState { tsc: 0, uptime: 0, tsc_per_ms: DEFAULT_TSC_PER_MS, cpu: 0, cpu_load: 0 }
    }

    /// The cycle counter.
    pub fn read_tsc(&self) -> (r: u64)
        ensures
            r == self.tsc,
    {
        self.tsc
    }

    /// The monotonic uptime.
    pub fn get_monotonic(&self) -> (r: u64)
        ensures
            r == self.uptime,
    {
        self.uptime
    }

    /// Milliseconds to cycles (modulo 2^64).
    pub fn ms_to_cpu_time(&self, ms: u32) -> (r: u64)
        ensures
            r == wmul64(ms as u64, self.tsc_per_ms),
    {
        (ms as u64).wrapping_mul(self.tsc_per_ms)
    }

    /// Cycles to milliseconds (zero before calibration).
    pub fn cpu_time_to_ms(&self, cycles: u64) -> (r: u64)
        ensures
            r == (if self.tsc_per_ms == 0 { 0 } else { cycles / self.tsc_per_ms }),
    {
        if self.tsc_per_ms == 0 {
            0
        } else {
            cycles / self.tsc_per_ms
        }
    }
}

} // verus!
