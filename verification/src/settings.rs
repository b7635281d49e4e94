use vstd::prelude::*;

verus! {

/// Settings of a parallel processing run.
pub trait ProcessingConfig {
    /// Largest number of tasks that run at once.
    fn max_concurrent_tasks(&self) -> usize;

    /// Capacity of the channels between the stages.
    fn channel_buffer_size(&self) -> usize;

    /// Number of results written at once.
    fn batch_size(&self) -> usize;

    /// Whether progress is reported.
    fn enable_progress_reporting(&self) -> bool;
}

/// Receiver of progress notifications of a processing run.
pub trait ProgressReporter {
    /// Processing of `total_files` files starts.
    fn report_started(&self, total_files: usize);

    /// `completed` of `total` files are done.
    fn report_progress(&self, completed: usize, total: usize);

    /// A file could not be processed.
    fn report_error(&self, file_path: &str, error: &str);

    /// Processing ended with `total_processed` files done and `total_errors`
    /// failures.
    fn report_completed(&self, total_processed: usize, total_errors: usize);
}

/// Processing settings held as plain values.
#[derive(Debug, Clone, Copy, PartialEq, Eq, Structural)]
pub struct ProcessingSettings {
    pub max_concurrent_tasks: usize,
    pub channel_buffer_size: usize,
    pub batch_size: usize,
    pub enable_progress_reporting: bool,
}

impl ProcessingConfig for ProcessingSettings {
    fn max_concurrent_tasks(&self) -> (r: usize)
        ensures
            r == self.max_concurrent_tasks,
    {
        self.max_concurrent_tasks
    }

    fn channel_buffer_size(&self) -> (r: usize)
        ensures
            r == self.channel_buffer_size,
    {
        self.channel_buffer_size
    }

    fn batch_size(&self) -> (r: usize)
        ensures
            r == self.batch_size,
    {
        self.batch_size
    }

    fn enable_progress_reporting(&self) -> (r: bool)
        ensures
            r == self.enable_progress_reporting,
    {
        self.enable_progress_reporting
    }
}

/// Calls `num_cpus::get`, which documents that it returns at least 1.
#[verifier::external_body]
fn cpu_count() -> (r: usize)
    ensures
        r >= 1,
{
    num_cpus::get()
}

/// Number of logical CPUs available to the process; at least 1.
pub fn available_cpus() -> (r: usize)
    ensures
        r >= 1,
{
    cpu_count()
}

/// Twice `n`, or the largest `usize` where that does not fit.
pub fn double_or_max(n: usize) -> (r: usize)
    ensures
        n * 2 <= usize::MAX ==> r == n * 2,
        n * 2 > usize::MAX ==> r == usize::MAX,
{
    if n <= usize::MAX / 2 {
        n * 2
    } else {
        usize::MAX
    }
}

} // verus!
