use vstd::prelude::*;
use core::marker::PhantomData;
use crate::error::ProcessingError;
use crate::image_loader::StandardImageLoader;
use crate::factories::{
    persists_to, HasherSelection, PersistenceSelection, ReporterSelection, StorageSelection,
};
use crate::text::owned;
use crate::perceptual_hash::{AverageConfig, AverageHasher};
use crate::settings::{ProcessingConfig, ProcessingSettings};
use crate::static_config::{streams_json_to, STREAMING_BUFFER_DEFAULT};
use crate::static_di::StaticDependencyProvider;

verus! {

/// Creates a component whose type and settings are fixed at compile time.
pub trait StaticComponentFactory<T> {
    /// Whether `t` is a component this factory creates; any, unless the
    /// factory says more.
    open spec fn factory_creates(t: T) -> bool {
        true
    }

    fn create() -> (r: T)
        ensures
            Self::factory_creates(r),
    ;

    /// Creation that may fail; by default it cannot, and it gives what
    /// `create` gives.
    fn try_create() -> (r: Result<T, ProcessingError>)
        default_ensures
            r matches Ok(t) && Self::factory_creates(t),
    {
        Ok(Self::create())
    }

    fn description() -> &'static str;
}

/// Creates a component that writes to an output path.
pub trait StaticComponentFactoryWithPath<T> {
    fn create(output_path: &str) -> T;

    fn description() -> &'static str;
}

/// Factory of standard image loaders.
pub struct StandardImageLoaderFactory<const MAX_DIMENSION: u32>;

impl<const MAX_DIMENSION: u32> StaticComponentFactory<StandardImageLoader> for StandardImageLoaderFactory<
    MAX_DIMENSION,
> {
    open spec fn factory_creates(l: StandardImageLoader) -> bool {
        l@ is None
    }

    /// A loader without a size cap.
    fn create() -> (r: StandardImageLoader)
        ensures
            r@ is None,
    {
        StandardImageLoader::new()
    }

    fn description() -> (r: &'static str)
        ensures
            r@ == "標準画像ローダー - サイズ制限付き"@,
    {
        "標準画像ローダー - サイズ制限付き"
    }
}

/// Factory of average hashers of hash size `SIZE`.
pub struct AverageHashFactory<const SIZE: u32>;

impl<const SIZE: u32> StaticComponentFactory<AverageHasher> for AverageHashFactory<SIZE> {
    open spec fn factory_creates(h: AverageHasher) -> bool {
        h@ == SIZE
    }

    fn create() -> (r: AverageHasher)
        ensures
            r@ == SIZE,
    {
        let config = AverageConfig { size: SIZE };
        config.create_hasher()
    }

    fn try_create() -> (r: Result<AverageHasher, ProcessingError>)
        ensures
            r matches Ok(h) && h@ == SIZE,
    {
        Ok(Self::create())
    }

    fn description() -> (r: &'static str)
        ensures
            r@ == "平均ハッシュアルゴリズム"@,
    {
        "平均ハッシュアルゴリズム"
    }
}

/// Factory of DCT hashers of hash size `SIZE`.
pub struct DctHashFactory<const SIZE: u32>;

/// Factory of local storage backends.
pub struct LocalStorageFactory;

impl StaticComponentFactory<StorageSelection> for LocalStorageFactory {
    open spec fn factory_creates(s: StorageSelection) -> bool {
        s == StorageSelection::Local
    }

    fn create() -> (r: StorageSelection)
        ensures
            r == StorageSelection::Local,
    {
        StorageSelection::Local
    }

    fn description() -> (r: &'static str)
        ensures
            r@ == "ローカルファイルシステムストレージ"@,
    {
        "ローカルファイルシステムストレージ"
    }
}

/// Factory of processing settings fixed at compile time.
pub struct DefaultProcessingConfigFactory<
    const MAX_CONCURRENT: usize,
    const BUFFER_SIZE: usize,
    const BATCH_SIZE: usize,
    const ENABLE_PROGRESS: bool,
>;

impl<
    const MAX_CONCURRENT: usize,
    const BUFFER_SIZE: usize,
    const BATCH_SIZE: usize,
    const ENABLE_PROGRESS: bool,
> StaticComponentFactory<ProcessingSettings> for DefaultProcessingConfigFactory<
    MAX_CONCURRENT,
    BUFFER_SIZE,
    BATCH_SIZE,
    ENABLE_PROGRESS,
> {
    open spec fn factory_creates(c: ProcessingSettings) -> bool {
        c == (ProcessingSettings {
            max_concurrent_tasks: MAX_CONCURRENT,
            channel_buffer_size: BUFFER_SIZE,
            batch_size: BATCH_SIZE,
            enable_progress_reporting: true,
        })
    }

    /// `MAX_CONCURRENT` tasks, a buffer of `BUFFER_SIZE`, batches of
    /// `BATCH_SIZE`, and progress reporting on, as for the default settings.
    fn create() -> (r: ProcessingSettings)
        ensures
            r == (ProcessingSettings {
                max_concurrent_tasks: MAX_CONCURRENT,
                channel_buffer_size: BUFFER_SIZE,
                batch_size: BATCH_SIZE,
                enable_progress_reporting: true,
            }),
    {
        ProcessingSettings {
            max_concurrent_tasks: MAX_CONCURRENT,
            channel_buffer_size: BUFFER_SIZE,
            batch_size: BATCH_SIZE,
            enable_progress_reporting: true,
        }
    }

    fn description() -> (r: &'static str)
        ensures
            r@ == "デフォルト処理設定"@,
    {
        "デフォルト処理設定"
    }
}

/// Factory of console progress reporters.
pub struct ConsoleProgressReporterFactory<const QUIET: bool>;

impl<const QUIET: bool> StaticComponentFactory<ReporterSelection> for ConsoleProgressReporterFactory<
    QUIET,
> {
    open spec fn factory_creates(r: ReporterSelection) -> bool {
        r == (ReporterSelection::Console { quiet: QUIET })
    }

    fn create() -> (r: ReporterSelection)
        ensures
            r == (ReporterSelection::Console { quiet: QUIET }),
    {
        ReporterSelection::Console { quiet: QUIET }
    }

    fn description() -> (r: &'static str)
        ensures
            r@ == "コンソール進捗報告"@,
    {
        "コンソール進捗報告"
    }
}

/// Factory of silent progress reporters.
pub struct NoOpProgressReporterFactory;

impl StaticComponentFactory<ReporterSelection> for NoOpProgressReporterFactory {
    open spec fn factory_creates(r: ReporterSelection) -> bool {
        r == ReporterSelection::NoOp
    }

    fn create() -> (r: ReporterSelection)
        ensures
            r == ReporterSelection::NoOp,
    {
        ReporterSelection::NoOp
    }

    fn description() -> (r: &'static str)
        ensures
            r@ == "進捗報告なし"@,
    {
        "進捗報告なし"
    }
}

/// Factory of streaming JSON persistence.
pub struct StreamingJsonHashPersistenceFactory<const BUFFER_SIZE: usize>;

impl<const BUFFER_SIZE: usize> StaticComponentFactoryWithPath<PersistenceSelection> for StreamingJsonHashPersistenceFactory<
    BUFFER_SIZE,
> {
    /// Streaming JSON output to the path, with the default buffer.
    fn create(output_path: &str) -> (r: PersistenceSelection)
        ensures
            r matches PersistenceSelection::StreamingJson { buffer_size, .. } && buffer_size
                == STREAMING_BUFFER_DEFAULT,
            persists_to(r, output_path@),
    {
        PersistenceSelection::StreamingJson {
            output_path: owned(output_path),
            buffer_size: STREAMING_BUFFER_DEFAULT,
        }
    }

    fn description() -> (r: &'static str)
        ensures
            r@ == "ストリーミングJSON永続化"@,
    {
        "ストリーミングJSON永続化"
    }
}

/// Factory of in-memory persistence.
pub struct MemoryHashPersistenceFactory;

impl StaticComponentFactoryWithPath<PersistenceSelection> for MemoryHashPersistenceFactory {
    /// The output path is not used: the results stay in memory.
    fn create(output_path: &str) -> (r: PersistenceSelection)
        ensures
            r == PersistenceSelection::Memory,
    {
        PersistenceSelection::Memory
    }

    fn description() -> (r: &'static str)
        ensures
            r@ == "メモリ内永続化"@,
    {
        "メモリ内永続化"
    }
}

/// Builder whose settings are compile-time constants.
pub struct EnhancedStaticDIBuilder<
    const IMAGE_SIZE_LIMIT: u32,
    const HASH_SIZE: u32,
    const CONCURRENT_TASKS: usize,
    const BUFFER_SIZE: usize,
    const BATCH_SIZE: usize,
    const QUIET_MODE: bool,
> {
    _marker: PhantomData<()>,
}

impl<
    const IMAGE_SIZE_LIMIT: u32,
    const HASH_SIZE: u32,
    const CONCURRENT_TASKS: usize,
    const BUFFER_SIZE: usize,
    const BATCH_SIZE: usize,
    const QUIET_MODE: bool,
> EnhancedStaticDIBuilder<
    IMAGE_SIZE_LIMIT,
    HASH_SIZE,
    CONCURRENT_TASKS,
    BUFFER_SIZE,
    BATCH_SIZE,
    QUIET_MODE,
> {
    pub fn new() -> Self {
        EnhancedStaticDIBuilder { _marker: PhantomData }
    }

    /// Whether the settings lie within the limits: a positive image size,
    /// hash size 4 to 256, 1 to 1024 tasks, buffer 1 to 100000, batch 1 to
    /// 10000.
    pub fn validate_config() -> (r: bool)
        ensures
            r == (IMAGE_SIZE_LIMIT > 0 && HASH_SIZE >= 4 && HASH_SIZE <= 256 && CONCURRENT_TASKS > 0
                && CONCURRENT_TASKS <= 1024 && BUFFER_SIZE > 0 && BUFFER_SIZE <= 100000 && BATCH_SIZE
                > 0 && BATCH_SIZE <= 10000),
    {
        IMAGE_SIZE_LIMIT > 0 && HASH_SIZE >= 4 && HASH_SIZE <= 256 && CONCURRENT_TASKS > 0
            && CONCURRENT_TASKS <= 1024 && BUFFER_SIZE > 0 && BUFFER_SIZE <= 100000 && BATCH_SIZE > 0
            && BATCH_SIZE <= 10000
    }

    /// Describes the settings: quiet or verbose, high precision from hash
    /// size 16 up, fast below.
    pub fn config_description() -> (r: &'static str)
        ensures
            r@ == (if QUIET_MODE {
                if HASH_SIZE >= 16 {
                    "Quiet high-precision configuration"@
                } else {
                    "Quiet fast configuration"@
                }
            } else {
                if HASH_SIZE >= 16 {
                    "Verbose high-precision configuration"@
                } else {
                    "Verbose fast configuration"@
                }
            }),
    {
        if QUIET_MODE {
            if HASH_SIZE >= 16 {
                "Quiet high-precision configuration"
            } else {
                "Quiet fast configuration"
            }
        } else {
            if HASH_SIZE >= 16 {
                "Verbose high-precision configuration"
            } else {
                "Verbose fast configuration"
            }
        }
    }
}

impl<
    const IMAGE_SIZE_LIMIT: u32,
    const HASH_SIZE: u32,
    const CONCURRENT_TASKS: usize,
    const BUFFER_SIZE: usize,
    const BATCH_SIZE: usize,
    const QUIET_MODE: bool,
> Default for EnhancedStaticDIBuilder<
    IMAGE_SIZE_LIMIT,
    HASH_SIZE,
    CONCURRENT_TASKS,
    BUFFER_SIZE,
    BATCH_SIZE,
    QUIET_MODE,
> {
    fn default() -> Self {
        Self::new()
    }
}

/// Settings of a configuration held as compile-time constants.
pub trait ConstGenericConfig {
    const IMAGE_SIZE_LIMIT: u32;
    const HASH_SIZE: u32;
    const CONCURRENT_TASKS: usize;
    const BUFFER_SIZE: usize;
    const BATCH_SIZE: usize;
    const QUIET_MODE: bool;

    /// The hasher this configuration selects.
    type PerceptualHashType;

    /// The progress reporter this configuration selects.
    type ProgressReporterType;

    /// Whether `h` is a hasher this configuration creates.
    spec fn creates_perceptual_hash_typed(h: Self::PerceptualHashType) -> bool;

    /// Whether `r` is a progress reporter this configuration creates.
    spec fn creates_progress_reporter_typed(r: Self::ProgressReporterType) -> bool;

    fn create_perceptual_hash_typed() -> (r: Self::PerceptualHashType)
        ensures
            Self::creates_perceptual_hash_typed(r),
    ;

    fn create_progress_reporter_typed() -> (r: Self::ProgressReporterType)
        ensures
            Self::creates_progress_reporter_typed(r),
    ;
}

/// A provider of components set up from a constant configuration.
pub struct ConfiguredStaticProvider<C> {
    _config: PhantomData<C>,
}

impl<C> ConfiguredStaticProvider<C> {
    pub fn new() -> Self {
        ConfiguredStaticProvider { _config: PhantomData }
    }
}

impl<C> Default for ConfiguredStaticProvider<C> {
    fn default() -> Self {
        Self::new()
    }
}

/// High precision: DCT hashing with console progress.
pub struct HighPrecisionConfig<
    const IMAGE_SIZE_LIMIT: u32,
    const HASH_SIZE: u32,
    const CONCURRENT_TASKS: usize,
    const BUFFER_SIZE: usize,
    const BATCH_SIZE: usize,
>;

impl<
    const IMAGE_SIZE_LIMIT: u32,
    const HASH_SIZE: u32,
    const CONCURRENT_TASKS: usize,
    const BUFFER_SIZE: usize,
    const BATCH_SIZE: usize,
> ConstGenericConfig for HighPrecisionConfig<
    IMAGE_SIZE_LIMIT,
    HASH_SIZE,
    CONCURRENT_TASKS,
    BUFFER_SIZE,
    BATCH_SIZE,
> {
    const IMAGE_SIZE_LIMIT: u32 = IMAGE_SIZE_LIMIT;
    const HASH_SIZE: u32 = HASH_SIZE;
    const CONCURRENT_TASKS: usize = CONCURRENT_TASKS;
    const BUFFER_SIZE: usize = BUFFER_SIZE;
    const BATCH_SIZE: usize = BATCH_SIZE;
    const QUIET_MODE: bool = false;

    type PerceptualHashType = HasherSelection;
    type ProgressReporterType = ReporterSelection;

    open spec fn creates_perceptual_hash_typed(h: HasherSelection) -> bool {
        h == (HasherSelection::Dct { size: HASH_SIZE })
    }

    open spec fn creates_progress_reporter_typed(r: ReporterSelection) -> bool {
        r == (ReporterSelection::Console { quiet: false })
    }

    /// A DCT hasher of hash size `HASH_SIZE`.
    fn create_perceptual_hash_typed() -> (r: HasherSelection)
        ensures
            r == (HasherSelection::Dct { size: HASH_SIZE }),
    {
        HasherSelection::Dct { size: HASH_SIZE }
    }

    /// Progress on the console.
    fn create_progress_reporter_typed() -> (r: ReporterSelection)
        ensures
            r == (ReporterSelection::Console { quiet: false }),
    {
        ReporterSelection::Console { quiet: false }
    }
}

/// Fast: average hashing without progress output.
pub struct FastConfig<
    const IMAGE_SIZE_LIMIT: u32,
    const HASH_SIZE: u32,
    const CONCURRENT_TASKS: usize,
    const BUFFER_SIZE: usize,
    const BATCH_SIZE: usize,
>;

impl<
    const IMAGE_SIZE_LIMIT: u32,
    const HASH_SIZE: u32,
    const CONCURRENT_TASKS: usize,
    const BUFFER_SIZE: usize,
    const BATCH_SIZE: usize,
> ConstGenericConfig for FastConfig<
    IMAGE_SIZE_LIMIT,
    HASH_SIZE,
    CONCURRENT_TASKS,
    BUFFER_SIZE,
    BATCH_SIZE,
> {
    const IMAGE_SIZE_LIMIT: u32 = IMAGE_SIZE_LIMIT;
    const HASH_SIZE: u32 = HASH_SIZE;
    const CONCURRENT_TASKS: usize = CONCURRENT_TASKS;
    const BUFFER_SIZE: usize = BUFFER_SIZE;
    const BATCH_SIZE: usize = BATCH_SIZE;
    const QUIET_MODE: bool = true;

    type PerceptualHashType = AverageHasher;
    type ProgressReporterType = ReporterSelection;

    open spec fn creates_perceptual_hash_typed(h: AverageHasher) -> bool {
        h@ == HASH_SIZE
    }

    open spec fn creates_progress_reporter_typed(r: ReporterSelection) -> bool {
        r == ReporterSelection::NoOp
    }

    /// The average hasher of this configuration's hash size.
    fn create_perceptual_hash_typed() -> (r: AverageHasher)
        ensures
            r@ == HASH_SIZE,
    {
        let config = AverageConfig { size: HASH_SIZE };
        config.create_hasher()
    }

    /// No progress output.
    fn create_progress_reporter_typed() -> (r: ReporterSelection)
        ensures
            r == ReporterSelection::NoOp,
    {
        ReporterSelection::NoOp
    }
}

impl<C: ConstGenericConfig> StaticDependencyProvider for ConfiguredStaticProvider<C> {
    type ImageLoader = StandardImageLoader;
    type PerceptualHash = C::PerceptualHashType;
    type Storage = StorageSelection;
    type ProcessingConfig = ProcessingSettings;
    type ProgressReporter = C::ProgressReporterType;
    type HashPersistence = PersistenceSelection;

    const DEPENDENCIES_VALID: bool = true;
    const DEPENDENCY_DESCRIPTION: &'static str = "Configured static provider with const generics";

    open spec fn creates_image_loader(l: StandardImageLoader) -> bool {
        l@ is None
    }

    open spec fn creates_perceptual_hash(h: C::PerceptualHashType) -> bool {
        C::creates_perceptual_hash_typed(h)
    }

    open spec fn creates_storage(s: StorageSelection) -> bool {
        s == StorageSelection::Local
    }

    open spec fn creates_processing_config(c: ProcessingSettings) -> bool {
        c == (ProcessingSettings {
            max_concurrent_tasks: C::CONCURRENT_TASKS,
            channel_buffer_size: C::BUFFER_SIZE,
            batch_size: C::BATCH_SIZE,
            enable_progress_reporting: true,
        })
    }

    open spec fn creates_progress_reporter(r: C::ProgressReporterType) -> bool {
        C::creates_progress_reporter_typed(r)
    }

    open spec fn creates_hash_persistence(p: PersistenceSelection, output_path: Seq<char>) -> bool {
        streams_json_to(p, output_path)
    }

    fn create_image_loader() -> (r: StandardImageLoader)
        ensures
            r@ is None,
    {
        StandardImageLoader::new()
    }

    /// The configuration's hasher.
    fn create_perceptual_hash() -> (r: C::PerceptualHashType)
        ensures
            C::creates_perceptual_hash_typed(r),
    {
        C::create_perceptual_hash_typed()
    }

    fn create_storage() -> (r: StorageSelection)
        ensures
            r == StorageSelection::Local,
    {
        StorageSelection::Local
    }

    /// The configuration's task count, buffer and batch sizes, with progress.
    fn create_processing_config() -> (r: ProcessingSettings)
        ensures
            r == (ProcessingSettings {
                max_concurrent_tasks: C::CONCURRENT_TASKS,
                channel_buffer_size: C::BUFFER_SIZE,
                batch_size: C::BATCH_SIZE,
                enable_progress_reporting: true,
            }),
    {
        ProcessingSettings {
            max_concurrent_tasks: C::CONCURRENT_TASKS,
            channel_buffer_size: C::BUFFER_SIZE,
            batch_size: C::BATCH_SIZE,
            enable_progress_reporting: true,
        }
    }

    /// The configuration's progress reporter.
    fn create_progress_reporter() -> (r: C::ProgressReporterType)
        ensures
            C::creates_progress_reporter_typed(r),
    {
        C::create_progress_reporter_typed()
    }

    /// Streaming JSON output to the path, with the default buffer.
    fn create_hash_persistence(output_path: &str) -> (r: PersistenceSelection)
        ensures
            r matches PersistenceSelection::StreamingJson { buffer_size, .. } && buffer_size
                == STREAMING_BUFFER_DEFAULT,
            persists_to(r, output_path@),
    {
        PersistenceSelection::StreamingJson {
            output_path: owned(output_path),
            buffer_size: STREAMING_BUFFER_DEFAULT,
        }
    }
}

/// A provider of six component types, each created by its own creator.
pub struct CustomStaticProvider<IL, PH, S, PC, PR, HP> {
    _image_loader: PhantomData<IL>,
    _perceptual_hash: PhantomData<PH>,
    _storage: PhantomData<S>,
    _processing_config: PhantomData<PC>,
    _progress_reporter: PhantomData<PR>,
    _hash_persistence: PhantomData<HP>,
}

impl<IL, PH, S, PC, PR, HP> CustomStaticProvider<IL, PH, S, PC, PR, HP> {
    pub fn new() -> Self {
        CustomStaticProvider {
            _image_loader: PhantomData,
            _perceptual_hash: PhantomData,
            _storage: PhantomData,
            _processing_config: PhantomData,
            _progress_reporter: PhantomData,
            _hash_persistence: PhantomData,
        }
    }
}

impl<IL, PH, S, PC, PR, HP> Default for CustomStaticProvider<IL, PH, S, PC, PR, HP> {
    fn default() -> Self {
        Self::new()
    }
}

/// Creates one component type for a provider.
pub trait StaticComponentCreator<T> {
    /// Whether `t` is a component this creator makes; any, unless the
    /// creator says more.
    open spec fn creates(t: T) -> bool {
        true
    }

    fn create() -> (r: T)
        ensures
            Self::creates(r),
    ;
}

/// Creates one component type that writes to an output path.
pub trait StaticComponentCreatorWithPath<T> {
    /// Whether `t` is a component this creator makes for `output_path`; any,
    /// unless the creator says more.
    open spec fn creates_with_path(t: T, output_path: Seq<char>) -> bool {
        true
    }

    fn create_with_path(output_path: &str) -> (r: T)
        ensures
            Self::creates_with_path(r, output_path@),
    ;
}

impl<IL, PH, S, PC: ProcessingConfig, PR, HP> StaticDependencyProvider for CustomStaticProvider<
    IL,
    PH,
    S,
    PC,
    PR,
    HP,
> where
    CustomStaticProvider<IL, PH, S, PC, PR, HP>: StaticComponentCreator<IL>,
    CustomStaticProvider<IL, PH, S, PC, PR, HP>: StaticComponentCreator<PH>,
    CustomStaticProvider<IL, PH, S, PC, PR, HP>: StaticComponentCreator<S>,
    CustomStaticProvider<IL, PH, S, PC, PR, HP>: StaticComponentCreator<PC>,
    CustomStaticProvider<IL, PH, S, PC, PR, HP>: StaticComponentCreator<PR>,
    CustomStaticProvider<IL, PH, S, PC, PR, HP>: StaticComponentCreatorWithPath<HP>,
 {
    type ImageLoader = IL;
    type PerceptualHash = PH;
    type Storage = S;
    type ProcessingConfig = PC;
    type ProgressReporter = PR;
    type HashPersistence = HP;

    const DEPENDENCIES_VALID: bool = true;
    const DEPENDENCY_DESCRIPTION: &'static str = "Custom static provider with type-safe component creation";

    open spec fn creates_image_loader(l: IL) -> bool {
        <Self as StaticComponentCreator<IL>>::creates(l)
    }

    open spec fn creates_perceptual_hash(h: PH) -> bool {
        <Self as StaticComponentCreator<PH>>::creates(h)
    }

    open spec fn creates_storage(s: S) -> bool {
        <Self as StaticComponentCreator<S>>::creates(s)
    }

    open spec fn creates_processing_config(c: PC) -> bool {
        <Self as StaticComponentCreator<PC>>::creates(c)
    }

    open spec fn creates_progress_reporter(r: PR) -> bool {
        <Self as StaticComponentCreator<PR>>::creates(r)
    }

    open spec fn creates_hash_persistence(p: HP, output_path: Seq<char>) -> bool {
        <Self as StaticComponentCreatorWithPath<HP>>::creates_with_path(p, output_path)
    }

    fn create_image_loader() -> (r: IL)
        ensures
            <Self as StaticComponentCreator<IL>>::creates(r),
    {
        <Self as StaticComponentCreator<IL>>::create()
    }

    fn create_perceptual_hash() -> (r: PH)
        ensures
            <Self as StaticComponentCreator<PH>>::creates(r),
    {
        <Self as StaticComponentCreator<PH>>::create()
    }

    fn create_storage() -> (r: S)
        ensures
            <Self as StaticComponentCreator<S>>::creates(r),
    {
        <Self as StaticComponentCreator<S>>::create()
    }

    fn create_processing_config() -> (r: PC)
        ensures
            <Self as StaticComponentCreator<PC>>::creates(r),
    {
        <Self as StaticComponentCreator<PC>>::create()
    }

    fn create_progress_reporter() -> (r: PR)
        ensures
            <Self as StaticComponentCreator<PR>>::creates(r),
    {
        <Self as StaticComponentCreator<PR>>::create()
    }

    fn create_hash_persistence(output_path: &str) -> (r: HP)
        ensures
            <Self as StaticComponentCreatorWithPath<HP>>::creates_with_path(r, output_path@),
    {
        <Self as StaticComponentCreatorWithPath<HP>>::create_with_path(output_path)
    }
}

} // verus!
