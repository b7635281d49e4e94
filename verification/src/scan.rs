use vstd::prelude::*;
use crate::settings::available_cpus;
use crate::text::{occurs_in, str_contains, str_eq};

verus! {

/// Options of the scan command.
#[derive(Debug, Clone)]
pub struct ScanConfig {
    pub target_directory: String,
    pub output: String,
    pub threads: Option<usize>,
    pub force: bool,
}

/// Options of the statically wired scan command.
#[derive(Debug, Clone)]
pub struct StaticScanConfig {
    pub target_directory: String,
    pub output: String,
    pub threads: Option<usize>,
    pub force: bool,
}

/// The preset configurations a scan can run with.
#[derive(Debug, Clone, Copy, PartialEq, Eq, Structural)]
pub enum ScanPreset {
    Default,
    HighPerformance,
    Testing,
}

impl ScanPreset {
    pub open spec fn name_spec(self) -> Seq<char> {
        match self {
            ScanPreset::Default => "default"@,
            ScanPreset::HighPerformance => "high_performance"@,
            ScanPreset::Testing => "testing"@,
        }
    }

    pub fn name(&self) -> (r: &'static str)
        ensures
            r@ == self.name_spec(),
    {
        match self {
            ScanPreset::Default => "default",
            ScanPreset::HighPerformance => "high_performance",
            ScanPreset::Testing => "testing",
        }
    }
}

/// The preset a name stands for.
pub open spec fn preset_named(name: Seq<char>) -> Option<ScanPreset> {
    if name == "default"@ {
        Some(ScanPreset::Default)
    } else if name == "high_performance"@ {
        Some(ScanPreset::HighPerformance)
    } else if name == "testing"@ {
        Some(ScanPreset::Testing)
    } else {
        None
    }
}

fn lookup_preset(name: &str) -> (r: Option<ScanPreset>)
    ensures
        r == preset_named(name@),
{
    if str_eq(name, "default") {
        Some(ScanPreset::Default)
    } else if str_eq(name, "high_performance") {
        Some(ScanPreset::HighPerformance)
    } else if str_eq(name, "testing") {
        Some(ScanPreset::Testing)
    } else {
        None
    }
}

/// The preset chosen from the scan options when none is named: high
/// performance for hash sizes from 32 or 8 threads and more, testing for the
/// average algorithm, default otherwise.
pub open spec fn automatic_preset(algorithm: Seq<char>, hash_size: u32, threads: Option<usize>) -> ScanPreset {
    let t: usize = match threads {
        Some(t) => t,
        None => 0,
    };
    if hash_size >= 32 || t >= 8 {
        ScanPreset::HighPerformance
    } else if algorithm == "average"@ {
        ScanPreset::Testing
    } else {
        ScanPreset::Default
    }
}

/// The preset of a scan: the named one, else the automatic choice. An
/// unknown name is refused with the list of presets.
pub fn choose_scan_preset(
    config_preset: Option<&str>,
    algorithm: &str,
    hash_size: u32,
    threads: Option<usize>,
) -> (r: Result<ScanPreset, String>)
    ensures
        match config_preset {
            None => r == Ok::<ScanPreset, String>(automatic_preset(algorithm@, hash_size, threads)),
            Some(name) => match preset_named(name@) {
                Some(p) => r == Ok::<ScanPreset, String>(p),
                None => r matches Err(m) && m@ == "Unknown configuration preset: "@ + name@
                    + ". Available: default, high_performance, testing"@,
            },
        },
{
    match config_preset {
        None => {
            let t: usize = match threads {
                Some(t) => t,
                None => 0,
            };
            if hash_size >= 32 || t >= 8 {
                Ok(ScanPreset::HighPerformance)
            } else if str_eq(algorithm, "average") {
                Ok(ScanPreset::Testing)
            } else {
                Ok(ScanPreset::Default)
            }
        },
        Some(name) => match lookup_preset(name) {
            Some(p) => Ok(p),
            None => Err(
                String::from_str("Unknown configuration preset: ").concat(name).concat(
                    ". Available: default, high_performance, testing",
                ),
            ),
        },
    }
}

/// The preset named `preset`, or the message listing the presets.
pub fn preset_by_name(preset: &str) -> (r: Result<ScanPreset, String>)
    ensures
        match preset_named(preset@) {
            Some(p) => r == Ok::<ScanPreset, String>(p),
            None => r matches Err(m) && m@ == "無効なプリセット: "@ + preset@
                + ". 利用可能: default, high_performance, testing"@,
        },
{
    match lookup_preset(preset) {
        Some(p) => Ok(p),
        None => Err(
            String::from_str("無効なプリセット: ").concat(preset).concat(
                ". 利用可能: default, high_performance, testing",
            ),
        ),
    }
}

/// The preset for an algorithm and hash size: DCT of 8 is default, DCT of 32
/// high performance, average of 8 testing, anything else default.
pub open spec fn parametric_preset_spec(algorithm: Seq<char>, hash_size: u32) -> ScanPreset {
    if algorithm == "dct"@ && hash_size == 32 {
        ScanPreset::HighPerformance
    } else if algorithm == "average"@ && hash_size == 8 {
        ScanPreset::Testing
    } else {
        ScanPreset::Default
    }
}

pub fn parametric_preset(algorithm: &str, hash_size: u32) -> (r: ScanPreset)
    ensures
        r == parametric_preset_spec(algorithm@, hash_size),
{
    proof {
        reveal_strlit("dct");
        reveal_strlit("average");
        assert("dct"@.len() != "average"@.len());
    }
    if str_eq(algorithm, "dct") {
        if hash_size == 32 {
            ScanPreset::HighPerformance
        } else {
            ScanPreset::Default
        }
    } else if str_eq(algorithm, "average") && hash_size == 8 {
        ScanPreset::Testing
    } else {
        ScanPreset::Default
    }
}

/// The preset guessed from a configuration file's path: high performance if
/// it mentions `high_performance`, testing if it mentions `test`, default
/// otherwise.
pub fn preset_for_config_path(config_path: &str) -> (r: ScanPreset)
    ensures
        r == (if occurs_in(config_path@, "high_performance"@) {
            ScanPreset::HighPerformance
        } else if occurs_in(config_path@, "test"@) {
            ScanPreset::Testing
        } else {
            ScanPreset::Default
        }),
{
    if str_contains(config_path, "high_performance") {
        ScanPreset::HighPerformance
    } else if str_contains(config_path, "test") {
        ScanPreset::Testing
    } else {
        ScanPreset::Default
    }
}

/// Decides whether a scan may start, from what the file system says: the
/// target must exist and be a directory, and an existing output file is only
/// overwritten with `force`.
pub fn check_scan_input(
    target_exists: bool,
    target_is_dir: bool,
    output_exists: bool,
    force: bool,
    target: &str,
    output: &str,
) -> (r: Result<(), String>)
    ensures
        !target_exists ==> (r matches Err(m) && m@ == "Target directory does not exist: "@ + target@),
        target_exists && !target_is_dir ==> (r matches Err(m) && m@
            == "Target path is not a directory: "@ + target@),
        target_exists && target_is_dir && output_exists && !force ==> (r matches Err(m) && m@
            == "Output file already exists: "@ + output@ + ". Use --force to overwrite."@),
        target_exists && target_is_dir && (!output_exists || force) ==> r is Ok,
{
    if !target_exists {
        return Err(String::from_str("Target directory does not exist: ").concat(target));
    }
    if !target_is_dir {
        return Err(String::from_str("Target path is not a directory: ").concat(target));
    }
    if output_exists && !force {
        return Err(
            String::from_str("Output file already exists: ").concat(output).concat(
                ". Use --force to overwrite.",
            ),
        );
    }
    Ok(())
}

/// The number of threads to use: the requested one, else the CPU count.
pub fn effective_thread_count(threads: Option<usize>) -> (r: usize)
    ensures
        match threads {
            Some(t) => r == t,
            None => r >= 1,
        },
{
    match threads {
        Some(t) => t,
        None => available_cpus(),
    }
}

} // verus!
