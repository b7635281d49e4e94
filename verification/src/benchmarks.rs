use vstd::prelude::*;
use crate::clock::{clock_elapsed, clock_now, duration_nanos};
use crate::settings::{ProcessingConfig, ProcessingSettings};
use crate::static_config::{DefaultConfig, HighPerformanceConfig, TestingConfig};
use crate::static_di::StaticDIContainer;
use crate::text::owned;

verus! {

/// The configuration that ran fastest in a measurement.
#[derive(Debug, Clone, Copy, PartialEq, Eq, Structural)]
pub enum BestConfig {
    Default,
    HighPerformance,
    Testing,
}

impl BestConfig {
    pub fn name(&self) -> (r: &'static str)
        ensures
            r@ == match self {
                BestConfig::Default => "default"@,
                BestConfig::HighPerformance => "high_performance"@,
                BestConfig::Testing => "testing"@,
            },
    {
        match self {
            BestConfig::Default => "default",
            BestConfig::HighPerformance => "high_performance",
            BestConfig::Testing => "testing",
        }
    }
}

/// The fastest of three timings; ties favour default, then high performance.
pub open spec fn best_of(default_time: u128, high_performance_time: u128, testing_time: u128) -> BestConfig {
    if default_time <= high_performance_time && default_time <= testing_time {
        BestConfig::Default
    } else if high_performance_time <= testing_time {
        BestConfig::HighPerformance
    } else {
        BestConfig::Testing
    }
}

/// Timings of one benchmark under the three preset configurations, in
/// nanoseconds, with the memory each configuration's object takes.
pub struct PerformanceMetrics {
    pub test_name: String,
    pub default_time: u128,
    pub high_performance_time: u128,
    pub testing_time: u128,
    pub best_config: BestConfig,
    pub memory_usage: Vec<(String, usize)>,
}

impl PerformanceMetrics {
    pub fn new(
        test_name: String,
        default_time: u128,
        high_performance_time: u128,
        testing_time: u128,
        memory_usage: Vec<(String, usize)>,
    ) -> (r: Self)
        ensures
            r.test_name == test_name,
            r.default_time == default_time,
            r.high_performance_time == high_performance_time,
            r.testing_time == testing_time,
            r.best_config == best_of(default_time, high_performance_time, testing_time),
            r.memory_usage == memory_usage,
    {
        let best_config = if default_time <= high_performance_time && default_time <= testing_time {
            BestConfig::Default
        } else if high_performance_time <= testing_time {
            BestConfig::HighPerformance
        } else {
            BestConfig::Testing
        };
        PerformanceMetrics {
            test_name,
            default_time,
            high_performance_time,
            testing_time,
            best_config,
            memory_usage,
        }
    }

    /// The timing of the best configuration.
    pub fn get_best_time(&self) -> (r: u128)
        ensures
            r == match self.best_config {
                BestConfig::Default => self.default_time,
                BestConfig::HighPerformance => self.high_performance_time,
                BestConfig::Testing => self.testing_time,
            },
    {
        match self.best_config {
            BestConfig::Default => self.default_time,
            BestConfig::HighPerformance => self.high_performance_time,
            BestConfig::Testing => self.testing_time,
        }
    }
}

/// The best timing of a measurement is the smallest of the three.
pub proof fn lemma_best_is_minimum(default_time: u128, high_performance_time: u128, testing_time: u128)
    ensures
        ({
            let b = best_of(default_time, high_performance_time, testing_time);
            let t = match b {
                BestConfig::Default => default_time,
                BestConfig::HighPerformance => high_performance_time,
                BestConfig::Testing => testing_time,
            };
            t <= default_time && t <= high_performance_time && t <= testing_time
        }),
{
}

/// A result of the named benchmark whose best configuration is the fastest
/// and whose memory table lists the three configurations, in order, with the
/// given sizes.
pub open spec fn recorded_as(
    m: PerformanceMetrics,
    name: Seq<char>,
    default_size: nat,
    high_performance_size: nat,
    testing_size: nat,
) -> bool {
    &&& m.test_name@ == name
    &&& m.best_config == best_of(m.default_time, m.high_performance_time, m.testing_time)
    &&& m.memory_usage@.len() == 3
    &&& m.memory_usage@[0].0@ == "default"@
    &&& m.memory_usage@[0].1 as nat == default_size
    &&& m.memory_usage@[1].0@ == "high_performance"@
    &&& m.memory_usage@[1].1 as nat == high_performance_size
    &&& m.memory_usage@[2].0@ == "testing"@
    &&& m.memory_usage@[2].1 as nat == testing_size
}

/// Nanoseconds taken by `iterations` rounds of reading the task count, batch
/// size and buffer size of `config`.
fn time_settings_reads(config: &ProcessingSettings, iterations: usize) -> u128 {
    let start = clock_now();
    for _i in 0..iterations {
        let _max_concurrent = config.max_concurrent_tasks();
        let _batch_size = config.batch_size();
        let _buffer_size = config.channel_buffer_size();
    }
    duration_nanos(&clock_elapsed(&start))
}

/// A collection of benchmark results.
pub struct PerformanceComparison {
    results: Vec<PerformanceMetrics>,
}

impl PerformanceComparison {
    pub fn new() -> (r: Self)
        ensures
            r.results_spec() == Seq::<PerformanceMetrics>::empty(),
    {
        PerformanceComparison { results: Vec::new() }
    }

    /// The results recorded, in order.
    pub closed spec fn results_spec(&self) -> Seq<PerformanceMetrics> {
        self.results@
    }

    /// Records one more result after the others.
    pub fn record(&mut self, metrics: PerformanceMetrics)
        ensures
            final(self).results_spec() == old(self).results_spec().push(metrics),
    {
        self.results.push(metrics);
    }

    /// Times `iterations` creations of a static container under each preset
    /// configuration and records the result, with each container's size.
    pub fn benchmark_di_container_creation(&mut self, iterations: usize)
        ensures
            final(self).results_spec().drop_last() == old(self).results_spec(),
            final(self).results_spec().len() == old(self).results_spec().len() + 1,
            recorded_as(
                final(self).results_spec().last(),
                "DI Container Creation"@,
                vstd::layout::size_of::<StaticDIContainer<DefaultConfig>>(),
                vstd::layout::size_of::<StaticDIContainer<HighPerformanceConfig>>(),
                vstd::layout::size_of::<StaticDIContainer<TestingConfig>>(),
            ),
    {
        let start = clock_now();
        for _i in 0..iterations {
            let _container = StaticDIContainer::<DefaultConfig>::new();
        }
        let default_time = duration_nanos(&clock_elapsed(&start));

        let start = clock_now();
        for _i in 0..iterations {
            let _container = StaticDIContainer::<HighPerformanceConfig>::new();
        }
        let high_performance_time = duration_nanos(&clock_elapsed(&start));

        let start = clock_now();
        for _i in 0..iterations {
            let _container = StaticDIContainer::<TestingConfig>::new();
        }
        let testing_time = duration_nanos(&clock_elapsed(&start));

        let mut memory_usage: Vec<(String, usize)> = Vec::new();
        memory_usage.push((owned("default"), core::mem::size_of::<StaticDIContainer<DefaultConfig>>()));
        memory_usage.push(
            (
                owned("high_performance"),
                core::mem::size_of::<StaticDIContainer<HighPerformanceConfig>>(),
            ),
        );
        memory_usage.push((owned("testing"), core::mem::size_of::<StaticDIContainer<TestingConfig>>()));

        let metrics = PerformanceMetrics::new(
            owned("DI Container Creation"),
            default_time,
            high_performance_time,
            testing_time,
            memory_usage,
        );
        self.record(metrics);
    }

    /// Times `iterations` reads of the three main settings from each preset
    /// configuration's processing settings and records the result, with the
    /// settings' size.
    pub fn benchmark_config_access(&mut self, iterations: usize)
        ensures
            final(self).results_spec().drop_last() == old(self).results_spec(),
            final(self).results_spec().len() == old(self).results_spec().len() + 1,
            recorded_as(
                final(self).results_spec().last(),
                "Configuration Access"@,
                vstd::layout::size_of::<ProcessingSettings>(),
                vstd::layout::size_of::<ProcessingSettings>(),
                vstd::layout::size_of::<ProcessingSettings>(),
            ),
    {
        let container = StaticDIContainer::<DefaultConfig>::new();
        let config = container.create_processing_config();
        let default_time = time_settings_reads(&config, iterations);

        let container = StaticDIContainer::<HighPerformanceConfig>::new();
        let config = container.create_processing_config();
        let high_performance_time = time_settings_reads(&config, iterations);

        let container = StaticDIContainer::<TestingConfig>::new();
        let config = container.create_processing_config();
        let testing_time = time_settings_reads(&config, iterations);

        let mut memory_usage: Vec<(String, usize)> = Vec::new();
        memory_usage.push((owned("default"), core::mem::size_of::<ProcessingSettings>()));
        memory_usage.push((owned("high_performance"), core::mem::size_of::<ProcessingSettings>()));
        memory_usage.push((owned("testing"), core::mem::size_of::<ProcessingSettings>()));

        let metrics = PerformanceMetrics::new(
            owned("Configuration Access"),
            default_time,
            high_performance_time,
            testing_time,
            memory_usage,
        );
        self.record(metrics);
    }

    /// Both benchmarks, with ten thousand container creations and a hundred
    /// thousand settings reads.
    pub fn run_full_comparison(&mut self)
        ensures
            final(self).results_spec().len() == old(self).results_spec().len() + 2,
            final(self).results_spec().take(old(self).results_spec().len() as int)
                == old(self).results_spec(),
            final(self).results_spec()[old(self).results_spec().len() as int].test_name@
                == "DI Container Creation"@,
            final(self).results_spec()[old(self).results_spec().len() + 1int].test_name@
                == "Configuration Access"@,
    {
        let ghost before = self.results_spec();
        self.benchmark_di_container_creation(10_000);
        let ghost middle = self.results_spec();
        self.benchmark_config_access(100_000);
        proof {
            let after = self.results_spec();
            assert(after.take(before.len() as int) =~= before) by {
                assert(middle.drop_last() == before);
                assert(after.drop_last() == middle);
                assert forall|k: int| 0 <= k < before.len() implies after[k] == before[k] by {
                    assert(after.drop_last()[k] == after[k]);
                    assert(middle.drop_last()[k] == middle[k]);
                }
            }
            assert(after[before.len() as int] == middle.last()) by {
                assert(after.drop_last()[before.len() as int] == after[before.len() as int]);
            }
        }
    }

    pub fn results(&self) -> (r: &Vec<PerformanceMetrics>)
        ensures
            r@ == self.results_spec(),
    {
        &self.results
    }
}

impl Default for PerformanceComparison {
    fn default() -> (r: Self)
        ensures
            r.results_spec() == Seq::<PerformanceMetrics>::empty(),
    {
        PerformanceComparison::new()
    }
}

} // verus!
