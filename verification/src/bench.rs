//! Wall-clock benchmark counters for the phases of the simulation step.

use vstd::prelude::*;

verus! {

/// A moment in time, as std measures it.
#[verifier::external_type_specification]
#[verifier::external_body]
pub struct ExInstant(std::time::Instant);

/// Relies on std's `Instant::now`: the clock's current reading. Nothing
/// is claimed of the value; time is outside the model.
#[verifier::external_body]
fn instant_now() -> std::time::Instant {
    std::time::Instant::now()
}

/// A named duration statistic: samples accumulate until `max_samples`
/// is reached, with an optional per-item count.
pub struct BenchmarkStatistic {
    pub timer: std::time::Instant,
    pub max_samples: usize,
    pub name: String,
    pub n_name: Option<String>,
    pub benchmarks: Vec<std::time::Duration>,
    pub n: usize,
}

impl BenchmarkStatistic {
    /// A fresh, empty statistic.
    pub fn new(name: String, n_name: Option<String>, max_samples: usize) -> (r: BenchmarkStatistic)
        ensures
            r.max_samples == max_samples,
            r.name == name,
            r.n_name == n_name,
            r.benchmarks@.len() == 0,
            r.n == 0,
    {
        BenchmarkStatistic {
            timer: instant_now(),
            max_samples,
            name,
            n_name,
            benchmarks: Vec::new(),
            n: 0,
        }
    }

    /// Restart the timer; everything else is untouched.
    pub fn start(&mut self)
        ensures
            final(self).max_samples == old(self).max_samples,
            final(self).name == old(self).name,
            final(self).n_name == old(self).n_name,
            final(self).benchmarks == old(self).benchmarks,
            final(self).n == old(self).n,
    {
        self.timer = instant_now();
    }
}

/// One statistic per phase of the update and render loop.
pub struct BenchmarkTests {
    pub rigid_collision_detection: BenchmarkStatistic,
    pub rigid_collision_solving: BenchmarkStatistic,
    pub string_constraint_detection: BenchmarkStatistic,
    pub string_constraint_solving: BenchmarkStatistic,
    pub updating: BenchmarkStatistic,
    pub rendering: BenchmarkStatistic,
}

} // verus!
