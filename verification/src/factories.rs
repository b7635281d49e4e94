use vstd::prelude::*;
use crate::image_loader::StandardImageLoader;
use crate::perceptual_hash::{validate_hash_size, AverageHasher, DifferenceHasher, HashConfigError};
use crate::settings::{available_cpus, double_or_max, ProcessingSettings};
use crate::text::{owned, str_eq, string_views};

verus! {

/// Parameters of a component, as read from its configuration; an absent
/// parameter takes the component's default.
#[derive(Debug, Clone, Copy)]
pub struct ComponentParameters {
    pub max_dimension: Option<u64>,
    pub size: Option<u64>,
    pub max_concurrent: Option<u64>,
    pub buffer_size: Option<u64>,
    pub batch_size: Option<u64>,
    pub enable_progress: Option<bool>,
    pub quiet: Option<bool>,
}

impl ComponentParameters {
    /// Parameters with nothing set.
    pub fn empty() -> (r: Self)
        ensures
            r.max_dimension is None,
            r.size is None,
            r.max_concurrent is None,
            r.buffer_size is None,
            r.batch_size is None,
            r.enable_progress is None,
            r.quiet is None,
    {
        ComponentParameters {
            max_dimension: None,
            size: None,
            max_concurrent: None,
            buffer_size: None,
            batch_size: None,
            enable_progress: None,
            quiet: None,
        }
    }
}

/// A component: the name of its implementation and its parameters.
#[derive(Debug, Clone)]
pub struct ComponentConfig {
    pub implementation: String,
    pub parameters: ComponentParameters,
}

impl ComponentConfig {
    pub fn new(implementation: &str, parameters: ComponentParameters) -> (r: Self)
        ensures
            r.implementation@ == implementation@,
            r.parameters == parameters,
    {
        ComponentConfig { implementation: String::from_str(implementation), parameters }
    }
}

/// A parameter's value, or `default` when absent.
pub open spec fn param_or(p: Option<u64>, default: u64) -> u64 {
    match p {
        Some(v) => v,
        None => default,
    }
}

/// The value of a number parameter, or `default`, truncated to 32 bits.
fn param_u32(p: Option<u64>, default: u64) -> (r: u32)
    ensures
        r == param_or(p, default) as u32,
{
    let v: u64 = match p {
        Some(v) => v,
        None => default,
    };
    v as u32
}

/// The value of a number parameter, or `default`, as a `usize`.
fn param_usize(p: Option<u64>, default: u64) -> (r: usize)
    ensures
        r == param_or(p, default) as usize,
{
    let v: u64 = match p {
        Some(v) => v,
        None => default,
    };
    v as usize
}

/// The message for an implementation that a factory does not know.
pub open spec fn unsupported_message(kind: Seq<char>, name: Seq<char>, available: Seq<char>) -> Seq<
    char,
> {
    "未サポートの"@ + kind + "実装: "@ + name + ". 利用可能: "@ + available
}

fn unsupported(kind: &str, name: &str, available: &str) -> (r: String)
    ensures
        r@ == unsupported_message(kind@, name@, available@),
{
    String::from_str("未サポートの").concat(kind).concat("実装: ").concat(name).concat(
        ". 利用可能: ",
    ).concat(available)
}

/// Creates image loaders.
pub struct ImageLoaderFactory;

impl ImageLoaderFactory {
    pub fn new() -> Self {
        ImageLoaderFactory
    }

    pub open spec fn description_spec(implementation: Seq<char>) -> Option<Seq<char>> {
        if implementation == "standard"@ {
            Some("標準的な画像ローダー (最大次元数制限付き)"@)
        } else {
            None
        }
    }

    pub fn available_implementations(&self) -> (r: Vec<String>)
        ensures
            string_views(r@) == seq!["standard"@],
    {
        let mut v: Vec<String> = Vec::new();
        v.push(owned("standard"));
        assert(string_views(v@) =~= seq!["standard"@]);
        v
    }

    pub fn get_description(&self, implementation: &str) -> (r: Option<String>)
        ensures
            match r {
                Some(s) => Self::description_spec(implementation@) == Some(s@),
                None => Self::description_spec(implementation@) is None,
            },
    {
        if str_eq(implementation, "standard") {
            Some(owned("標準的な画像ローダー (最大次元数制限付き)"))
        } else {
            None
        }
    }

    /// A `standard` loader capped at the `max_dimension` parameter (512 when
    /// absent, truncated to 32 bits); any other name is refused.
    pub fn create(&self, config: &ComponentConfig) -> (r: Result<StandardImageLoader, String>)
        ensures
            config.implementation@ == "standard"@ ==> (r matches Ok(l) && l@ == Some(
                param_or(config.parameters.max_dimension, 512) as u32,
            )),
            config.implementation@ != "standard"@ ==> (r matches Err(m) && m@ == unsupported_message(
                "ImageLoader"@,
                config.implementation@,
                "standard"@,
            )),
    {
        if str_eq(config.implementation.as_str(), "standard") {
            let max_dimension = param_u32(config.parameters.max_dimension, 512);
            Ok(StandardImageLoader::with_max_dimension(max_dimension))
        } else {
            Err(unsupported("ImageLoader", config.implementation.as_str(), "standard"))
        }
    }
}

impl Default for ImageLoaderFactory {
    fn default() -> Self {
        ImageLoaderFactory::new()
    }
}

/// The hasher a perceptual hash component stands for. A DCT hasher also
/// has a quality factor, which the caller checks and supplies.
pub enum HasherSelection {
    Dct { size: u32 },
    Average(AverageHasher),
    Difference(DifferenceHasher),
}

/// Creates perceptual hashers.
pub struct PerceptualHashFactory;

impl PerceptualHashFactory {
    pub fn new() -> Self {
        PerceptualHashFactory
    }

    pub open spec fn description_spec(implementation: Seq<char>) -> Option<Seq<char>> {
        if implementation == "dct"@ {
            Some("DCTベースのパーセプチュアルハッシュ (高精度)"@)
        } else if implementation == "average"@ {
            Some("平均値ベースのパーセプチュアルハッシュ (高速)"@)
        } else if implementation == "difference"@ {
            Some("差分ベースのパーセプチュアルハッシュ (シンプル)"@)
        } else {
            None
        }
    }

    pub fn available_implementations(&self) -> (r: Vec<String>)
        ensures
            string_views(r@) == seq!["dct"@, "average"@, "difference"@],
    {
        let mut v: Vec<String> = Vec::new();
        v.push(owned("dct"));
        v.push(owned("average"));
        v.push(owned("difference"));
        assert(string_views(v@) =~= seq!["dct"@, "average"@, "difference"@]);
        v
    }

    pub fn get_description(&self, implementation: &str) -> (r: Option<String>)
        ensures
            match r {
                Some(s) => Self::description_spec(implementation@) == Some(s@),
                None => Self::description_spec(implementation@) is None,
            },
    {
        if str_eq(implementation, "dct") {
            Some(owned("DCTベースのパーセプチュアルハッシュ (高精度)"))
        } else if str_eq(implementation, "average") {
            Some(owned("平均値ベースのパーセプチュアルハッシュ (高速)"))
        } else if str_eq(implementation, "difference") {
            Some(owned("差分ベースのパーセプチュアルハッシュ (シンプル)"))
        } else {
            None
        }
    }

    /// The hasher for `dct`, `average` or `difference`, with the `size`
    /// parameter (8 when absent, truncated to 32 bits). DCT and average sizes
    /// must lie between 1 and 64; the error is the size check's message.
    pub fn create(&self, config: &ComponentConfig) -> (r: Result<HasherSelection, String>)
        ensures
            ({
                let size = param_or(config.parameters.size, 8) as u32;
                let name = config.implementation@;
                &&& (name == "dct"@ && 1 <= size <= 64) ==> (r matches Ok(
                    HasherSelection::Dct { size: s },
                ) && s == size)
                &&& (name == "average"@ && 1 <= size <= 64) ==> (r matches Ok(
                    HasherSelection::Average(h),
                ) && h@ == size)
                &&& ((name == "dct"@ || name == "average"@) && size == 0) ==> (r matches Err(m)
                    && m@ == "Size must be greater than 0"@)
                &&& ((name == "dct"@ || name == "average"@) && size > 64) ==> (r matches Err(m)
                    && m@ == "Size must be 64 or less for performance reasons"@)
                &&& name == "difference"@ ==> (r matches Ok(HasherSelection::Difference(h)) && h@
                    == size)
                &&& (name != "dct"@ && name != "average"@ && name != "difference"@) ==> (r matches Err(
                    m,
                ) && m@ == unsupported_message(
                    "PerceptualHash"@,
                    name,
                    "dct, average, difference"@,
                ))
            }),
    {
        let size = param_u32(config.parameters.size, 8);
        let name = config.implementation.as_str();
        proof {
            reveal_strlit("dct");
            reveal_strlit("average");
            reveal_strlit("difference");
            assert("dct"@.len() == 3);
            assert("average"@.len() == 7);
            assert("difference"@.len() == 10);
        }
        if str_eq(name, "dct") {
            match validate_hash_size(size) {
                Ok(()) => Ok(HasherSelection::Dct { size }),
                Err(e) => Err(owned(e.message())),
            }
        } else if str_eq(name, "average") {
            match validate_hash_size(size) {
                Ok(()) => Ok(HasherSelection::Average(AverageHasher::new(size))),
                Err(e) => Err(owned(e.message())),
            }
        } else if str_eq(name, "difference") {
            Ok(HasherSelection::Difference(DifferenceHasher::new(size)))
        } else {
            Err(unsupported("PerceptualHash", name, "dct, average, difference"))
        }
    }
}

impl Default for PerceptualHashFactory {
    fn default() -> Self {
        PerceptualHashFactory::new()
    }
}

/// The storage backends there are.
#[derive(Debug, Clone, Copy, PartialEq, Eq, Structural)]
pub enum StorageSelection {
    /// The local file system.
    Local,
}

/// Creates storage backends.
pub struct StorageFactory;

impl StorageFactory {
    pub fn new() -> Self {
        StorageFactory
    }

    pub open spec fn description_spec(implementation: Seq<char>) -> Option<Seq<char>> {
        if implementation == "local"@ {
            Some("ローカルファイルシステムストレージ"@)
        } else {
            None
        }
    }

    pub fn available_implementations(&self) -> (r: Vec<String>)
        ensures
            string_views(r@) == seq!["local"@],
    {
        let mut v: Vec<String> = Vec::new();
        v.push(owned("local"));
        assert(string_views(v@) =~= seq!["local"@]);
        v
    }

    pub fn get_description(&self, implementation: &str) -> (r: Option<String>)
        ensures
            match r {
                Some(s) => Self::description_spec(implementation@) == Some(s@),
                None => Self::description_spec(implementation@) is None,
            },
    {
        if str_eq(implementation, "local") {
            Some(owned("ローカルファイルシステムストレージ"))
        } else {
            None
        }
    }

    /// The local storage for `local`; any other name is refused.
    pub fn create(&self, config: &ComponentConfig) -> (r: Result<StorageSelection, String>)
        ensures
            config.implementation@ == "local"@ ==> r == Ok::<StorageSelection, String>(
                StorageSelection::Local,
            ),
            config.implementation@ != "local"@ ==> (r matches Err(m) && m@ == unsupported_message(
                "Storage"@,
                config.implementation@,
                "local"@,
            )),
    {
        if str_eq(config.implementation.as_str(), "local") {
            Ok(StorageSelection::Local)
        } else {
            Err(unsupported("Storage", config.implementation.as_str(), "local"))
        }
    }
}

impl Default for StorageFactory {
    fn default() -> Self {
        StorageFactory::new()
    }
}

/// Creates processing settings.
pub struct ProcessingConfigFactory;

impl ProcessingConfigFactory {
    pub fn new() -> Self {
        ProcessingConfigFactory
    }

    pub open spec fn description_spec(implementation: Seq<char>) -> Option<Seq<char>> {
        if implementation == "default"@ {
            Some("デフォルトの処理設定 (CPU数ベースの自動調整)"@)
        } else {
            None
        }
    }

    pub fn available_implementations(&self) -> (r: Vec<String>)
        ensures
            string_views(r@) == seq!["default"@],
    {
        let mut v: Vec<String> = Vec::new();
        v.push(owned("default"));
        assert(string_views(v@) =~= seq!["default"@]);
        v
    }

    pub fn get_description(&self, implementation: &str) -> (r: Option<String>)
        ensures
            match r {
                Some(s) => Self::description_spec(implementation@) == Some(s@),
                None => Self::description_spec(implementation@) is None,
            },
    {
        if str_eq(implementation, "default") {
            Some(owned("デフォルトの処理設定 (CPU数ベースの自動調整)"))
        } else {
            None
        }
    }

    /// Settings for `default`: the parameters `max_concurrent` (twice the
    /// CPU count when absent), `buffer_size` (100), `batch_size` (50) and
    /// `enable_progress` (true); any other name is refused.
    pub fn create(&self, config: &ComponentConfig) -> (r: Result<ProcessingSettings, String>)
        ensures
            config.implementation@ == "default"@ ==> (r matches Ok(s) && (match config.parameters.max_concurrent {
                Some(v) => s.max_concurrent_tasks == v as usize,
                None => s.max_concurrent_tasks >= 2,
            }) && s.channel_buffer_size == param_or(config.parameters.buffer_size, 100) as usize
                && s.batch_size == param_or(config.parameters.batch_size, 50) as usize
                && s.enable_progress_reporting == match config.parameters.enable_progress {
                Some(b) => b,
                None => true,
            }),
            config.implementation@ != "default"@ ==> (r matches Err(m) && m@ == unsupported_message(
                "ProcessingConfig"@,
                config.implementation@,
                "default"@,
            )),
    {
        if str_eq(config.implementation.as_str(), "default") {
            let max_concurrent: usize = match config.parameters.max_concurrent {
                Some(v) => v as usize,
                None => double_or_max(available_cpus()),
            };
            let enable_progress = match config.parameters.enable_progress {
                Some(b) => b,
                None => true,
            };
            Ok(
                ProcessingSettings {
                    max_concurrent_tasks: max_concurrent,
                    channel_buffer_size: param_usize(config.parameters.buffer_size, 100),
                    batch_size: param_usize(config.parameters.batch_size, 50),
                    enable_progress_reporting: enable_progress,
                },
            )
        } else {
            Err(unsupported("ProcessingConfig", config.implementation.as_str(), "default"))
        }
    }
}

impl Default for ProcessingConfigFactory {
    fn default() -> Self {
        ProcessingConfigFactory::new()
    }
}

/// The progress reporters there are.
#[derive(Debug, Clone, Copy, PartialEq, Eq, Structural)]
pub enum ReporterSelection {
    /// Reports on the console, or stays silent when `quiet`.
    Console { quiet: bool },
    /// Reports nothing.
    NoOp,
}

/// Creates progress reporters.
pub struct ProgressReporterFactory;

impl ProgressReporterFactory {
    pub fn new() -> Self {
        ProgressReporterFactory
    }

    pub open spec fn description_spec(implementation: Seq<char>) -> Option<Seq<char>> {
        if implementation == "console"@ {
            Some("コンソール出力による進捗報告"@)
        } else if implementation == "noop"@ {
            Some("何もしない進捗報告 (テスト・ベンチマーク用)"@)
        } else {
            None
        }
    }

    pub fn available_implementations(&self) -> (r: Vec<String>)
        ensures
            string_views(r@) == seq!["console"@, "noop"@],
    {
        let mut v: Vec<String> = Vec::new();
        v.push(owned("console"));
        v.push(owned("noop"));
        assert(string_views(v@) =~= seq!["console"@, "noop"@]);
        v
    }

    pub fn get_description(&self, implementation: &str) -> (r: Option<String>)
        ensures
            match r {
                Some(s) => Self::description_spec(implementation@) == Some(s@),
                None => Self::description_spec(implementation@) is None,
            },
    {
        if str_eq(implementation, "console") {
            Some(owned("コンソール出力による進捗報告"))
        } else if str_eq(implementation, "noop") {
            Some(owned("何もしない進捗報告 (テスト・ベンチマーク用)"))
        } else {
            None
        }
    }

    /// A console reporter for `console` (quiet per the `quiet` parameter,
    /// false when absent), a silent one for `noop`; other names are refused.
    pub fn create(&self, config: &ComponentConfig) -> (r: Result<ReporterSelection, String>)
        ensures
            config.implementation@ == "console"@ ==> r == Ok::<ReporterSelection, String>(
                ReporterSelection::Console {
                    quiet: match config.parameters.quiet {
                        Some(b) => b,
                        None => false,
                    },
                },
            ),
            config.implementation@ == "noop"@ ==> r == Ok::<ReporterSelection, String>(
                ReporterSelection::NoOp,
            ),
            config.implementation@ != "console"@ && config.implementation@ != "noop"@ ==> (r matches Err(
                m,
            ) && m@ == unsupported_message(
                "ProgressReporter"@,
                config.implementation@,
                "console, noop"@,
            )),
    {
        proof {
            reveal_strlit("console");
            reveal_strlit("noop");
            assert("noop"@.len() == 4);
            assert("console"@.len() == 7);
        }
        if str_eq(config.implementation.as_str(), "console") {
            let quiet = match config.parameters.quiet {
                Some(b) => b,
                None => false,
            };
            Ok(ReporterSelection::Console { quiet })
        } else if str_eq(config.implementation.as_str(), "noop") {
            Ok(ReporterSelection::NoOp)
        } else {
            Err(unsupported("ProgressReporter", config.implementation.as_str(), "console, noop"))
        }
    }
}

impl Default for ProgressReporterFactory {
    fn default() -> Self {
        ProgressReporterFactory::new()
    }
}

/// The ways hash results can be kept.
#[derive(Debug, Clone, PartialEq, Eq)]
pub enum PersistenceSelection {
    /// One JSON file at `output_path`, written at the end.
    Json { output_path: String },
    /// A JSON file at `output_path`, written as results come, `buffer_size`
    /// at a time.
    StreamingJson { output_path: String, buffer_size: usize },
    /// Kept in memory.
    Memory,
}

/// Whether `p` writes its results to `path`; results kept in memory are
/// written nowhere.
pub open spec fn persists_to(p: PersistenceSelection, path: Seq<char>) -> bool {
    match p {
        PersistenceSelection::Json { output_path } => output_path@ == path,
        PersistenceSelection::StreamingJson { output_path, .. } => output_path@ == path,
        PersistenceSelection::Memory => true,
    }
}

/// Creates hash persistence backends.
pub struct HashPersistenceFactory;

impl HashPersistenceFactory {
    pub fn new() -> Self {
        HashPersistenceFactory
    }

    pub open spec fn description_spec(implementation: Seq<char>) -> Option<Seq<char>> {
        if implementation == "json"@ {
            Some("JSON形式でファイル出力 (全データメモリ保持)"@)
        } else if implementation == "streaming_json"@ {
            Some("ストリーミングJSON出力 (メモリ効率重視)"@)
        } else if implementation == "memory"@ {
            Some("メモリ内保存 (テスト・開発用)"@)
        } else {
            None
        }
    }

    pub fn available_implementations(&self) -> (r: Vec<String>)
        ensures
            string_views(r@) == seq!["json"@, "streaming_json"@, "memory"@],
    {
        let mut v: Vec<String> = Vec::new();
        v.push(owned("json"));
        v.push(owned("streaming_json"));
        v.push(owned("memory"));
        assert(string_views(v@) =~= seq!["json"@, "streaming_json"@, "memory"@]);
        v
    }

    pub fn get_description(&self, implementation: &str) -> (r: Option<String>)
        ensures
            match r {
                Some(s) => Self::description_spec(implementation@) == Some(s@),
                None => Self::description_spec(implementation@) is None,
            },
    {
        if str_eq(implementation, "json") {
            Some(owned("JSON形式でファイル出力 (全データメモリ保持)"))
        } else if str_eq(implementation, "streaming_json") {
            Some(owned("ストリーミングJSON出力 (メモリ効率重視)"))
        } else if str_eq(implementation, "memory") {
            Some(owned("メモリ内保存 (テスト・開発用)"))
        } else {
            None
        }
    }

    /// The persistence for `json`, `streaming_json` (buffer of the
    /// `buffer_size` parameter, 100 when absent) or `memory`, writing to
    /// `output_path`; other names are refused.
    pub fn create(&self, config: &ComponentConfig, output_path: &str) -> (r: Result<
        PersistenceSelection,
        String,
    >)
        ensures
            config.implementation@ == "json"@ ==> (r matches Ok(p) && p is Json && persists_to(
                p,
                output_path@,
            )),
            config.implementation@ == "streaming_json"@ ==> (r matches Ok(p) && (p matches PersistenceSelection::StreamingJson {
                buffer_size,
                ..
            } && buffer_size == param_or(config.parameters.buffer_size, 100) as usize) && persists_to(
                p,
                output_path@,
            )),
            config.implementation@ == "memory"@ ==> (r matches Ok(p) && p is Memory),
            config.implementation@ != "json"@ && config.implementation@ != "streaming_json"@
                && config.implementation@ != "memory"@ ==> (r matches Err(m) && m@
                == unsupported_message(
                "HashPersistence"@,
                config.implementation@,
                "json, streaming_json, memory"@,
            )),
    {
        let name = config.implementation.as_str();
        proof {
            reveal_strlit("json");
            reveal_strlit("streaming_json");
            reveal_strlit("memory");
            assert("json"@.len() == 4);
            assert("streaming_json"@.len() == 14);
            assert("memory"@.len() == 6);
        }
        if str_eq(name, "json") {
            Ok(PersistenceSelection::Json { output_path: owned(output_path) })
        } else if str_eq(name, "streaming_json") {
            Ok(
                PersistenceSelection::StreamingJson {
                    output_path: owned(output_path),
                    buffer_size: param_usize(config.parameters.buffer_size, 100),
                },
            )
        } else if str_eq(name, "memory") {
            Ok(PersistenceSelection::Memory)
        } else {
            Err(unsupported("HashPersistence", name, "json, streaming_json, memory"))
        }
    }
}

impl Default for HashPersistenceFactory {
    fn default() -> Self {
        HashPersistenceFactory::new()
    }
}

} // verus!
