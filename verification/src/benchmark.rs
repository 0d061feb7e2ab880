use vstd::prelude::*;

verus! {

/// Where a timing run stands.
#[derive(Clone, Copy, Debug, PartialEq, Eq, Structural)]
pub enum BenchmarkStatus {
    Paused,
    Running,
    Finished,
}

/// Adds up the time that a number of steps took. Times are whole nanoseconds.
#[derive(Clone, Copy, Debug, PartialEq, Eq, Structural)]
pub struct Benchmark {
    pub elapsed_time: u64,
    pub number_iterations: i32,
    pub benchmark_iterations: i32,
    pub status: BenchmarkStatus,
}

impl Benchmark {
    /// A paused run that will finish after `benchmark_iterations` steps.
    pub fn new(benchmark_iterations: i32) -> (benchmark: Benchmark)
        ensures
            benchmark == (Benchmark {
                elapsed_time: 0,
                number_iterations: 0,
                benchmark_iterations,
                status: BenchmarkStatus::Paused,
            }),
    {
        Benchmark {
            elapsed_time: 0,
            number_iterations: 0,
            benchmark_iterations,
            status: BenchmarkStatus::Paused,
        }
    }

    /// Sets the run going.
    pub fn start(&mut self)
        ensures
            *final(self) == (Benchmark { status: BenchmarkStatus::Running, ..*old(self) }),
    {
        self.status = BenchmarkStatus::Running;
    }

    /// Records one more step that took `elapsed_time`. The run is finished
    /// once as many steps are recorded as were asked for.
    pub fn increase_elapsed_time(&mut self, elapsed_time: u64)
        requires
            old(self).elapsed_time + elapsed_time <= u64::MAX,
            old(self).number_iterations < i32::MAX,
        ensures
            final(self).elapsed_time == old(self).elapsed_time + elapsed_time,
            final(self).number_iterations == old(self).number_iterations + 1,
            final(self).benchmark_iterations == old(self).benchmark_iterations,
            final(self).status == if final(self).number_iterations >= old(
                self,
            ).benchmark_iterations {
                BenchmarkStatus::Finished
            } else {
                old(self).status
            },
    {
        self.elapsed_time = self.elapsed_time + elapsed_time;
        self.number_iterations = self.number_iterations + 1;
        if self.number_iterations >= self.benchmark_iterations {
            self.status = BenchmarkStatus::Finished;
        }
    }

    /// The mean time of a step, rounded down; none before the first step.
    pub fn get_average_time(&self) -> (average: Option<u64>)
        ensures
            self.number_iterations <= 0 ==> average.is_none(),
            self.number_iterations > 0 ==> average == Some(
                (self.elapsed_time as int / self.number_iterations as int) as u64,
            ),
    {
        if self.number_iterations <= 0 {
            None
        } else {
            Some(self.elapsed_time / (self.number_iterations as u64))
        }
    }
}

} // verus!
