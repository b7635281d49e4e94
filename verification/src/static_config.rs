use vstd::prelude::*;
use core::marker::PhantomData;
use crate::error::ProcessingError;
use crate::factories::{
    persists_to, HasherSelection, PersistenceSelection, ReporterSelection, StorageSelection,
};
use crate::text::owned;
use crate::image_loader::StandardImageLoader;
use crate::perceptual_hash::{AverageConfig, AverageHasher};
use crate::settings::{available_cpus, double_or_max, ProcessingSettings};
use crate::static_di::StaticDependencyProvider;

verus! {

/// Performance profile of a configuration.
#[derive(Debug, Clone, Copy, PartialEq, Eq, Structural)]
pub enum PerformanceLevel {
    /// Slower, most accurate.
    Accurate,
    /// Balanced.
    Balanced,
    /// Fastest, least accurate.
    Fast,
}

/// A configuration described at the type level: a name, a description and a
/// performance profile, all fixed at compile time.
pub trait TypeConfig {
    const NAME: &'static str;
    const DESCRIPTION: &'static str;
    const PERFORMANCE_LEVEL: PerformanceLevel;
}

/// Balanced default configuration.
pub struct DefaultConfig;

impl TypeConfig for DefaultConfig {
    const NAME: &'static str = "default";
    const DESCRIPTION: &'static str = "バランスの取れたデフォルト設定";
    const PERFORMANCE_LEVEL: PerformanceLevel = PerformanceLevel::Balanced;
}

/// High throughput configuration.
pub struct HighPerformanceConfig;

impl TypeConfig for HighPerformanceConfig {
    const NAME: &'static str = "high_performance";
    const DESCRIPTION: &'static str = "高性能・高スループット設定";
    const PERFORMANCE_LEVEL: PerformanceLevel = PerformanceLevel::Fast;
}

/// Lightweight configuration for tests.
pub struct TestingConfig;

impl TypeConfig for TestingConfig {
    const NAME: &'static str = "testing";
    const DESCRIPTION: &'static str = "テスト用軽量設定";
    const PERFORMANCE_LEVEL: PerformanceLevel = PerformanceLevel::Fast;
}

/// Buffer size of the streaming JSON persistence when none is given.
pub const STREAMING_BUFFER_DEFAULT: usize = 100;

/// Whether `p` is streaming JSON output to `output_path` with the default
/// buffer.
pub open spec fn streams_json_to(p: PersistenceSelection, output_path: Seq<char>) -> bool {
    &&& p matches PersistenceSelection::StreamingJson { buffer_size, .. } && buffer_size
        == STREAMING_BUFFER_DEFAULT
    &&& persists_to(p, output_path)
}

impl StaticDependencyProvider for DefaultConfig {
    type ImageLoader = StandardImageLoader;
    type PerceptualHash = HasherSelection;
    type Storage = StorageSelection;
    type ProcessingConfig = ProcessingSettings;
    type ProgressReporter = ReporterSelection;
    type HashPersistence = PersistenceSelection;

    const DEPENDENCIES_VALID: bool = true;
    const DEPENDENCY_DESCRIPTION: &'static str = "Default configuration with balanced performance";

    open spec fn creates_image_loader(l: StandardImageLoader) -> bool {
        l@ is None
    }

    open spec fn creates_perceptual_hash(h: HasherSelection) -> bool {
        h == (HasherSelection::Dct { size: 8 })
    }

    open spec fn creates_storage(s: StorageSelection) -> bool {
        s == StorageSelection::Local
    }

    open spec fn creates_processing_config(c: ProcessingSettings) -> bool {
        &&& c.max_concurrent_tasks >= 1
        &&& c.channel_buffer_size == 100
        &&& c.batch_size == 50
        &&& c.enable_progress_reporting
    }

    open spec fn creates_progress_reporter(r: ReporterSelection) -> bool {
        r == (ReporterSelection::Console { quiet: false })
    }

    open spec fn creates_hash_persistence(p: PersistenceSelection, output_path: Seq<char>) -> bool {
        streams_json_to(p, output_path)
    }

    fn create_image_loader() -> (r: StandardImageLoader)
        ensures
            r@ is None,
    {
        StandardImageLoader::new()
    }

    /// A DCT hasher of hash size 8.
    fn create_perceptual_hash() -> (r: HasherSelection)
        ensures
            r == (HasherSelection::Dct { size: 8 }),
    {
        HasherSelection::Dct { size: 8 }
    }

    fn create_storage() -> (r: StorageSelection)
        ensures
            r == StorageSelection::Local,
    {
        StorageSelection::Local
    }

    /// One task per CPU, a buffer of 100, batches of 50, with progress.
    fn create_processing_config() -> (r: ProcessingSettings)
        ensures
            r.max_concurrent_tasks >= 1,
            r.channel_buffer_size == 100,
            r.batch_size == 50,
            r.enable_progress_reporting,
    {
        ProcessingSettings {
            max_concurrent_tasks: available_cpus(),
            channel_buffer_size: 100,
            batch_size: 50,
            enable_progress_reporting: true,
        }
    }

    fn create_progress_reporter() -> (r: ReporterSelection)
        ensures
            r == (ReporterSelection::Console { quiet: false }),
    {
        ReporterSelection::Console { quiet: false }
    }

    /// Streaming JSON output to the path, with the default buffer.
    fn create_hash_persistence(output_path: &str) -> (r: PersistenceSelection)
        ensures
            r matches PersistenceSelection::StreamingJson { buffer_size, .. } && buffer_size
                == STREAMING_BUFFER_DEFAULT,
            persists_to(r, output_path@),
    {
        PersistenceSelection::StreamingJson {
            output_path: owned(output_path),
            buffer_size: STREAMING_BUFFER_DEFAULT,
        }
    }
}

impl DefaultConfig {
    /// Creating the default configuration's hasher cannot fail.
    pub fn try_create_perceptual_hash() -> (r: Result<HasherSelection, ProcessingError>)
        ensures
            r == Ok::<HasherSelection, ProcessingError>(HasherSelection::Dct { size: 8 }),
    {
        Ok(<DefaultConfig as StaticDependencyProvider>::create_perceptual_hash())
    }
}

impl StaticDependencyProvider for HighPerformanceConfig {
    type ImageLoader = StandardImageLoader;
    type PerceptualHash = HasherSelection;
    type Storage = StorageSelection;
    type ProcessingConfig = ProcessingSettings;
    type ProgressReporter = ReporterSelection;
    type HashPersistence = PersistenceSelection;

    const DEPENDENCIES_VALID: bool = true;
    const DEPENDENCY_DESCRIPTION: &'static str = "High performance configuration for maximum throughput";

    open spec fn creates_image_loader(l: StandardImageLoader) -> bool {
        l@ is None
    }

    open spec fn creates_perceptual_hash(h: HasherSelection) -> bool {
        h == (HasherSelection::Dct { size: 32 })
    }

    open spec fn creates_storage(s: StorageSelection) -> bool {
        s == StorageSelection::Local
    }

    open spec fn creates_processing_config(c: ProcessingSettings) -> bool {
        &&& c.max_concurrent_tasks >= 2
        &&& c.channel_buffer_size == 500
        &&& c.batch_size == 100
        &&& c.enable_progress_reporting
    }

    open spec fn creates_progress_reporter(r: ReporterSelection) -> bool {
        r == (ReporterSelection::Console { quiet: false })
    }

    open spec fn creates_hash_persistence(p: PersistenceSelection, output_path: Seq<char>) -> bool {
        streams_json_to(p, output_path)
    }

    fn create_image_loader() -> (r: StandardImageLoader)
        ensures
            r@ is None,
    {
        StandardImageLoader::new()
    }

    /// A DCT hasher of hash size 32.
    fn create_perceptual_hash() -> (r: HasherSelection)
        ensures
            r == (HasherSelection::Dct { size: 32 }),
    {
        HasherSelection::Dct { size: 32 }
    }

    fn create_storage() -> (r: StorageSelection)
        ensures
            r == StorageSelection::Local,
    {
        StorageSelection::Local
    }

    /// Two tasks per CPU, a buffer of 500, batches of 100, with progress.
    fn create_processing_config() -> (r: ProcessingSettings)
        ensures
            r.max_concurrent_tasks >= 2,
            r.channel_buffer_size == 500,
            r.batch_size == 100,
            r.enable_progress_reporting,
    {
        ProcessingSettings {
            max_concurrent_tasks: double_or_max(available_cpus()),
            channel_buffer_size: 500,
            batch_size: 100,
            enable_progress_reporting: true,
        }
    }

    fn create_progress_reporter() -> (r: ReporterSelection)
        ensures
            r == (ReporterSelection::Console { quiet: false }),
    {
        ReporterSelection::Console { quiet: false }
    }

    /// Streaming JSON output to the path, with the default buffer.
    fn create_hash_persistence(output_path: &str) -> (r: PersistenceSelection)
        ensures
            r matches PersistenceSelection::StreamingJson { buffer_size, .. } && buffer_size
                == STREAMING_BUFFER_DEFAULT,
            persists_to(r, output_path@),
    {
        PersistenceSelection::StreamingJson {
            output_path: owned(output_path),
            buffer_size: STREAMING_BUFFER_DEFAULT,
        }
    }
}

impl HighPerformanceConfig {
    /// Creating the high performance configuration's hasher cannot fail.
    pub fn try_create_perceptual_hash() -> (r: Result<HasherSelection, ProcessingError>)
        ensures
            r == Ok::<HasherSelection, ProcessingError>(HasherSelection::Dct { size: 32 }),
    {
        Ok(<HighPerformanceConfig as StaticDependencyProvider>::create_perceptual_hash())
    }
}

impl StaticDependencyProvider for TestingConfig {
    type ImageLoader = StandardImageLoader;
    type PerceptualHash = AverageHasher;
    type Storage = StorageSelection;
    type ProcessingConfig = ProcessingSettings;
    type ProgressReporter = ReporterSelection;
    type HashPersistence = PersistenceSelection;

    const DEPENDENCIES_VALID: bool = true;
    const DEPENDENCY_DESCRIPTION: &'static str = "Testing configuration with lightweight components";

    open spec fn creates_image_loader(l: StandardImageLoader) -> bool {
        l@ is None
    }

    open spec fn creates_perceptual_hash(h: AverageHasher) -> bool {
        h@ == 8
    }

    open spec fn creates_storage(s: StorageSelection) -> bool {
        s == StorageSelection::Local
    }

    open spec fn creates_processing_config(c: ProcessingSettings) -> bool {
        c == (ProcessingSettings {
            max_concurrent_tasks: 2,
            channel_buffer_size: 10,
            batch_size: 5,
            enable_progress_reporting: true,
        })
    }

    open spec fn creates_progress_reporter(r: ReporterSelection) -> bool {
        r == ReporterSelection::NoOp
    }

    open spec fn creates_hash_persistence(p: PersistenceSelection, output_path: Seq<char>) -> bool {
        p == PersistenceSelection::Memory
    }

    fn create_image_loader() -> (r: StandardImageLoader)
        ensures
            r@ is None,
    {
        StandardImageLoader::new()
    }

    /// An average hasher of size 8.
    fn create_perceptual_hash() -> (r: AverageHasher)
        ensures
            r@ == 8,
    {
        let config = AverageConfig { size: 8 };
        config.create_hasher()
    }

    fn create_storage() -> (r: StorageSelection)
        ensures
            r == StorageSelection::Local,
    {
        StorageSelection::Local
    }

    /// Two tasks, a buffer of 10, batches of 5, with progress.
    fn create_processing_config() -> (r: ProcessingSettings)
        ensures
            r == (ProcessingSettings {
                max_concurrent_tasks: 2,
                channel_buffer_size: 10,
                batch_size: 5,
                enable_progress_reporting: true,
            }),
    {
        ProcessingSettings {
            max_concurrent_tasks: 2,
            channel_buffer_size: 10,
            batch_size: 5,
            enable_progress_reporting: true,
        }
    }

    fn create_progress_reporter() -> (r: ReporterSelection)
        ensures
            r == ReporterSelection::NoOp,
    {
        ReporterSelection::NoOp
    }

    /// Results kept in memory; the path is not used.
    fn create_hash_persistence(output_path: &str) -> (r: PersistenceSelection)
        ensures
            r == PersistenceSelection::Memory,
    {
        PersistenceSelection::Memory
    }
}

impl TestingConfig {
    /// Creating the testing configuration's hasher cannot fail.
    pub fn try_create_perceptual_hash() -> (r: Result<AverageHasher, ProcessingError>)
        ensures
            r matches Ok(h) && h@ == 8,
    {
        Ok(<TestingConfig as StaticDependencyProvider>::create_perceptual_hash())
    }
}

/// Limits that every configuration's values must respect.
pub trait AdvancedConfigConstraints {
    const MIN_BATCH_SIZE: usize = 1;
    const MAX_BATCH_SIZE: usize = 10000;
    const MIN_BUFFER_SIZE: usize = 1;
    const MAX_BUFFER_SIZE: usize = 100000;
    const MIN_THREADS: usize = 1;
    const MAX_THREADS: usize = 1024;
    const MIN_HASH_SIZE: u32 = 4;
    const MAX_HASH_SIZE: u32 = 256;
}

impl<T: TypeConfig> AdvancedConfigConstraints for T {}

/// Compile-time check of a configuration's values against the limits.
pub trait StaticConfigValidator {
    const IS_VALID: bool;
    const ERROR_MESSAGE: &'static str;
    const BATCH_SIZE_VALID: bool;
    const BUFFER_SIZE_VALID: bool;
    const THREAD_COUNT_VALID: bool;
    const HASH_SIZE_VALID: bool;
}

impl StaticConfigValidator for DefaultConfig {
    const BATCH_SIZE_VALID: bool = 50 >= Self::MIN_BATCH_SIZE && 50 <= Self::MAX_BATCH_SIZE;
    const BUFFER_SIZE_VALID: bool = 100 >= Self::MIN_BUFFER_SIZE && 100 <= Self::MAX_BUFFER_SIZE;
    const THREAD_COUNT_VALID: bool = 8 >= Self::MIN_THREADS && 8 <= Self::MAX_THREADS;
    const HASH_SIZE_VALID: bool = 8 >= Self::MIN_HASH_SIZE && 8 <= Self::MAX_HASH_SIZE;
    const IS_VALID: bool = Self::BATCH_SIZE_VALID && Self::BUFFER_SIZE_VALID
        && Self::THREAD_COUNT_VALID && Self::HASH_SIZE_VALID;
    const ERROR_MESSAGE: &'static str = "DefaultConfig設定検証に失敗しました";
}

impl StaticConfigValidator for HighPerformanceConfig {
    const BATCH_SIZE_VALID: bool = 100 >= Self::MIN_BATCH_SIZE && 100 <= Self::MAX_BATCH_SIZE;
    const BUFFER_SIZE_VALID: bool = 500 >= Self::MIN_BUFFER_SIZE && 500 <= Self::MAX_BUFFER_SIZE;
    const THREAD_COUNT_VALID: bool = 16 >= Self::MIN_THREADS && 16 <= Self::MAX_THREADS;
    const HASH_SIZE_VALID: bool = 32 >= Self::MIN_HASH_SIZE && 32 <= Self::MAX_HASH_SIZE;
    const IS_VALID: bool = Self::BATCH_SIZE_VALID && Self::BUFFER_SIZE_VALID
        && Self::THREAD_COUNT_VALID && Self::HASH_SIZE_VALID;
    const ERROR_MESSAGE: &'static str = "HighPerformanceConfig設定検証に失敗しました";
}

impl StaticConfigValidator for TestingConfig {
    const BATCH_SIZE_VALID: bool = 5 >= Self::MIN_BATCH_SIZE && 5 <= Self::MAX_BATCH_SIZE;
    const BUFFER_SIZE_VALID: bool = 10 >= Self::MIN_BUFFER_SIZE && 10 <= Self::MAX_BUFFER_SIZE;
    const THREAD_COUNT_VALID: bool = 2 >= Self::MIN_THREADS && 2 <= Self::MAX_THREADS;
    const HASH_SIZE_VALID: bool = 8 >= Self::MIN_HASH_SIZE && 8 <= Self::MAX_HASH_SIZE;
    const IS_VALID: bool = Self::BATCH_SIZE_VALID && Self::BUFFER_SIZE_VALID
        && Self::THREAD_COUNT_VALID && Self::HASH_SIZE_VALID;
    const ERROR_MESSAGE: &'static str = "TestingConfig設定検証に失敗しました";
}

/// The preset configurations pass every check, and every limit's lower bound
/// is below its upper bound.
pub proof fn lemma_presets_valid()
    ensures
        DefaultConfig::IS_VALID,
        HighPerformanceConfig::IS_VALID,
        TestingConfig::IS_VALID,
        DefaultConfig::MIN_BATCH_SIZE <= DefaultConfig::MAX_BATCH_SIZE,
        DefaultConfig::MIN_BUFFER_SIZE <= DefaultConfig::MAX_BUFFER_SIZE,
        DefaultConfig::MIN_THREADS <= DefaultConfig::MAX_THREADS,
        DefaultConfig::MIN_HASH_SIZE <= DefaultConfig::MAX_HASH_SIZE,
{
}

/// Builder of a custom configuration from six component types.
pub struct CustomConfigBuilder<IL, PH, S, PC, PR, HP> {
    _image_loader: PhantomData<IL>,
    _perceptual_hash: PhantomData<PH>,
    _storage: PhantomData<S>,
    _processing_config: PhantomData<PC>,
    _progress_reporter: PhantomData<PR>,
    _hash_persistence: PhantomData<HP>,
}

impl<IL, PH, S, PC, PR, HP> CustomConfigBuilder<IL, PH, S, PC, PR, HP> {
    pub fn new() -> Self {
        CustomConfigBuilder {
            _image_loader: PhantomData,
            _perceptual_hash: PhantomData,
            _storage: PhantomData,
            _processing_config: PhantomData,
            _progress_reporter: PhantomData,
            _hash_persistence: PhantomData,
        }
    }
}

impl<IL, PH, S, PC, PR, HP> Default for CustomConfigBuilder<IL, PH, S, PC, PR, HP> {
    fn default() -> Self {
        Self::new()
    }
}

/// A configuration built from six component types.
pub struct CustomConfig<IL, PH, S, PC, PR, HP> {
    _builder: CustomConfigBuilder<IL, PH, S, PC, PR, HP>,
}

impl<IL, PH, S, PC, PR, HP> TypeConfig for CustomConfig<IL, PH, S, PC, PR, HP> {
    const NAME: &'static str = "custom";
    const DESCRIPTION: &'static str = "カスタム設定";
    const PERFORMANCE_LEVEL: PerformanceLevel = PerformanceLevel::Balanced;
}

impl<IL, PH, S, PC, PR, HP> StaticConfigValidator for CustomConfig<IL, PH, S, PC, PR, HP> {
    const BATCH_SIZE_VALID: bool = true;
    const BUFFER_SIZE_VALID: bool = true;
    const THREAD_COUNT_VALID: bool = true;
    const HASH_SIZE_VALID: bool = true;
    const IS_VALID: bool = Self::BATCH_SIZE_VALID && Self::BUFFER_SIZE_VALID
        && Self::THREAD_COUNT_VALID && Self::HASH_SIZE_VALID;
    const ERROR_MESSAGE: &'static str = "CustomConfig設定検証に失敗しました";
}

/// Names of the component types of a static configuration.
#[derive(Debug, Clone, Copy)]
pub struct StaticDependencyTypeInfo {
    pub image_loader: &'static str,
    pub perceptual_hash: &'static str,
    pub storage: &'static str,
    pub processing_config: &'static str,
    pub progress_reporter: &'static str,
    pub hash_persistence: &'static str,
}

} // verus!
