use image_dedup::benchmarks::PerformanceComparison;
use image_dedup::engine::ProcessingEngine;
use image_dedup::factories::{HasherSelection, PersistenceSelection, ReporterSelection, StorageSelection};
use image_dedup::image_loader::StandardImageLoader;
use image_dedup::perceptual_hash::{AverageConfig, AverageHasher};
use image_dedup::settings::{ProcessingConfig, ProcessingSettings};
use image_dedup::static_config::{DefaultConfig, HighPerformanceConfig, TestingConfig};
use image_dedup::static_di::{StaticDIContainer, StaticDependencyProvider};
use image_dedup::static_factory::{
    ConfiguredStaticProvider, ConstGenericConfig, CustomStaticProvider, FastConfig, HighPrecisionConfig,
    StaticComponentCreator, StaticComponentCreatorWithPath,
};

struct TestDependencyProvider;

impl StaticDependencyProvider for TestDependencyProvider {
    type ImageLoader = StandardImageLoader;
    type PerceptualHash = AverageHasher;
    type Storage = StorageSelection;
    type ProcessingConfig = ProcessingSettings;
    type ProgressReporter = ReporterSelection;
    type HashPersistence = PersistenceSelection;

    fn create_image_loader() -> Self::ImageLoader {
        StandardImageLoader::new()
    }

    fn create_perceptual_hash() -> Self::PerceptualHash {
        let config = AverageConfig { size: 8 };
        config.create_hasher()
    }

    fn create_storage() -> Self::Storage {
        StorageSelection::Local
    }

    fn create_processing_config() -> Self::ProcessingConfig {
        ProcessingSettings {
            max_concurrent_tasks: 4,
            channel_buffer_size: 100,
            batch_size: 50,
            enable_progress_reporting: true,
        }
    }

    fn create_progress_reporter() -> Self::ProgressReporter {
        ReporterSelection::Console { quiet: false }
    }

    fn create_hash_persistence(_output_path: &str) -> Self::HashPersistence {
        PersistenceSelection::Memory
    }
}

#[test]
fn test_static_di_container_creation() {
    let container = StaticDIContainer::<TestDependencyProvider>::new();

    let _loader = container.create_image_loader();
    let _hasher = container.create_perceptual_hash();
    let _storage = container.create_storage();
    let _config = container.create_processing_config();
    let _reporter = container.create_progress_reporter();
}

#[test]
fn test_zero_runtime_overhead() {
    assert_eq!(std::mem::size_of::<StaticDIContainer<TestDependencyProvider>>(), 0);
}

#[test]
fn test_const_creation() {
    let _container: StaticDIContainer<TestDependencyProvider> = StaticDIContainer::new();
}

#[test]
fn test_static_di_with_configs() {
    let default_container = StaticDIContainer::<DefaultConfig>::new();
    let hp_container = StaticDIContainer::<HighPerformanceConfig>::new();
    let test_container = StaticDIContainer::<TestingConfig>::new();

    let _default_loader = default_container.create_image_loader();
    let _hp_loader = hp_container.create_image_loader();
    let _test_loader = test_container.create_image_loader();
}

struct TestProvider;

impl StaticComponentCreator<StandardImageLoader> for TestProvider {
    fn create() -> StandardImageLoader {
        StandardImageLoader::new()
    }
}

impl StaticComponentCreator<StorageSelection> for TestProvider {
    fn create() -> StorageSelection {
        StorageSelection::Local
    }
}

#[test]
fn test_type_safe_component_creation() {
    let _loader: StandardImageLoader = TestProvider::create();
    let _storage: StorageSelection = TestProvider::create();
}

#[test]
fn test_preset_macros() {
    let _default = StaticDIContainer::<DefaultConfig>::new();
    let _hp = StaticDIContainer::<HighPerformanceConfig>::new();
    let _test = StaticDIContainer::<TestingConfig>::new();
    let _high_precision =
        StaticDIContainer::<ConfiguredStaticProvider<HighPrecisionConfig<2048, 32, 8, 500, 100>>>::new();
    let _fast = StaticDIContainer::<ConfiguredStaticProvider<FastConfig<1024, 8, 16, 1000, 200>>>::new();
}

#[test]
fn test_configured_container_creation() {
    type CustomHighPrecision = HighPrecisionConfig<2048, 64, 4, 300, 75>;
    let _high_precision_container = StaticDIContainer::<ConfiguredStaticProvider<CustomHighPrecision>>::new();

    type CustomFast = FastConfig<512, 8, 32, 2000, 500>;
    let _fast_container = StaticDIContainer::<ConfiguredStaticProvider<CustomFast>>::new();
}

#[test]
fn test_processing_engine_direct_ownership() {
    let loader = StandardImageLoader::new();
    let hasher = HasherSelection::Dct { size: 8 };
    let storage = StorageSelection::Local;
    let config = ProcessingSettings {
        max_concurrent_tasks: 4,
        channel_buffer_size: 100,
        batch_size: 50,
        enable_progress_reporting: true,
    };
    let reporter = ReporterSelection::Console { quiet: true };
    let persistence = PersistenceSelection::Memory;

    let engine = ProcessingEngine::new(loader, hasher, storage, config, reporter, persistence);

    assert!(engine.config().enable_progress_reporting());
}

#[test]
fn test_di_container_benchmark() {
    let mut comparison = PerformanceComparison::new();
    comparison.benchmark_di_container_creation(10);

    assert_eq!(comparison.results().len(), 1);
    assert_eq!(comparison.results()[0].test_name, "DI Container Creation");
}

#[test]
fn test_zero_cost_abstraction_verification() {
    assert_eq!(std::mem::size_of::<StaticDIContainer<DefaultConfig>>(), 0);
    assert_eq!(std::mem::size_of::<StaticDIContainer<HighPerformanceConfig>>(), 0);
    assert_eq!(std::mem::size_of::<StaticDIContainer<TestingConfig>>(), 0);
}

#[test]
fn preset_providers_supply_their_components() {
    assert!(matches!(DefaultConfig::create_perceptual_hash(), HasherSelection::Dct { size: 8 }));
    assert!(matches!(HighPerformanceConfig::create_perceptual_hash(), HasherSelection::Dct { size: 32 }));
    assert_eq!(TestingConfig::create_perceptual_hash().get_size(), 8);
    assert!(matches!(DefaultConfig::try_create_perceptual_hash(), Ok(HasherSelection::Dct { size: 8 })));

    let default_settings = DefaultConfig::create_processing_config();
    assert!(default_settings.max_concurrent_tasks >= 1);
    assert_eq!((default_settings.channel_buffer_size, default_settings.batch_size), (100, 50));
    let hp_settings = HighPerformanceConfig::create_processing_config();
    assert!(hp_settings.max_concurrent_tasks >= 2);
    assert_eq!((hp_settings.channel_buffer_size, hp_settings.batch_size), (500, 100));
    assert_eq!(
        TestingConfig::create_processing_config(),
        ProcessingSettings {
            max_concurrent_tasks: 2,
            channel_buffer_size: 10,
            batch_size: 5,
            enable_progress_reporting: true,
        }
    );

    assert_eq!(DefaultConfig::create_progress_reporter(), ReporterSelection::Console { quiet: false });
    assert_eq!(TestingConfig::create_progress_reporter(), ReporterSelection::NoOp);
    assert_eq!(
        DefaultConfig::create_hash_persistence("out.json"),
        PersistenceSelection::StreamingJson { output_path: "out.json".to_string(), buffer_size: 100 }
    );
    assert_eq!(TestingConfig::create_hash_persistence("out.json"), PersistenceSelection::Memory);
    assert_eq!(TestingConfig::create_storage(), StorageSelection::Local);

    assert!(StaticDIContainer::<TestingConfig>::validate());
    assert_eq!(
        StaticDIContainer::<TestingConfig>::description(),
        "Testing configuration with lightweight components"
    );
    assert_eq!(
        StaticDIContainer::<TestDependencyProvider>::description(),
        "Static dependency provider"
    );
}

#[test]
fn configured_providers_follow_their_constants() {
    type Precise = ConfiguredStaticProvider<HighPrecisionConfig<1024, 16, 4, 100, 50>>;
    type Quick = ConfiguredStaticProvider<FastConfig<512, 8, 8, 200, 100>>;

    assert!(matches!(Precise::create_perceptual_hash(), HasherSelection::Dct { size: 16 }));
    assert_eq!(Quick::create_perceptual_hash().get_size(), 8);
    assert_eq!(Precise::create_progress_reporter(), ReporterSelection::Console { quiet: false });
    assert_eq!(Quick::create_progress_reporter(), ReporterSelection::NoOp);
    assert_eq!(
        Quick::create_processing_config(),
        ProcessingSettings {
            max_concurrent_tasks: 8,
            channel_buffer_size: 200,
            batch_size: 100,
            enable_progress_reporting: true,
        }
    );
    assert_eq!(HighPrecisionConfig::<2048, 32, 8, 500, 100>::HASH_SIZE, 32);
    assert_eq!(FastConfig::<1024, 8, 16, 1000, 200>::CONCURRENT_TASKS, 16);
    assert!(FastConfig::<1024, 8, 16, 1000, 200>::QUIET_MODE);
    assert!(matches!(HighPrecisionConfig::<2048, 32, 8, 500, 100>::create_perceptual_hash_typed(), HasherSelection::Dct { size: 32 }));

    let container = StaticDIContainer::<Precise>::new();
    let bundle = container.create_dependency_bundle("out.json");
    assert_eq!(bundle.storage, StorageSelection::Local);
    assert_eq!(bundle.hash_persistence, PersistenceSelection::StreamingJson { output_path: "out.json".to_string(), buffer_size: 100 });
    let engine = container.create_processing_engine("out.json");
    assert_eq!(engine.config().max_concurrent_tasks(), 4);
    assert_eq!(engine.config().batch_size(), 50);
}

struct Loader(u32);
struct Hasher(u32);
struct Store;
struct Settings(usize);
struct Reporter;
struct Persist(String);

impl ProcessingConfig for Settings {
    fn max_concurrent_tasks(&self) -> usize {
        self.0
    }

    fn channel_buffer_size(&self) -> usize {
        self.0 * 10
    }

    fn batch_size(&self) -> usize {
        self.0
    }

    fn enable_progress_reporting(&self) -> bool {
        false
    }
}

type Custom = CustomStaticProvider<Loader, Hasher, Store, Settings, Reporter, Persist>;

impl StaticComponentCreator<Loader> for Custom {
    fn create() -> Loader {
        Loader(64)
    }
}

impl StaticComponentCreator<Hasher> for Custom {
    fn create() -> Hasher {
        Hasher(12)
    }
}

impl StaticComponentCreator<Store> for Custom {
    fn create() -> Store {
        Store
    }
}

impl StaticComponentCreator<Settings> for Custom {
    fn create() -> Settings {
        Settings(3)
    }
}

impl StaticComponentCreator<Reporter> for Custom {
    fn create() -> Reporter {
        Reporter
    }
}

impl StaticComponentCreatorWithPath<Persist> for Custom {
    fn create_with_path(output_path: &str) -> Persist {
        Persist(output_path.to_string())
    }
}

#[test]
fn custom_provider_uses_its_creators() {
    let container = StaticDIContainer::<Custom>::new();
    let bundle = container.create_dependency_bundle("out.json");
    assert_eq!(bundle.image_loader.0, 64);
    assert_eq!(bundle.perceptual_hash.0, 12);
    assert_eq!(bundle.hash_persistence.0, "out.json");
    assert_eq!(bundle.processing_config.channel_buffer_size(), 30);
    let _ = (bundle.storage, bundle.progress_reporter);
    assert_eq!(
        StaticDIContainer::<Custom>::description(),
        "Custom static provider with type-safe component creation"
    );
}

#[test]
fn config_access_benchmark_is_recorded_after_earlier_results() {
    let mut comparison = PerformanceComparison::new();
    comparison.benchmark_config_access(5);
    comparison.benchmark_di_container_creation(5);
    let results = comparison.results();
    assert_eq!(results.len(), 2);
    assert_eq!(results[0].test_name, "Configuration Access");
    assert_eq!(results[1].test_name, "DI Container Creation");
    let names: Vec<&str> = results[0].memory_usage.iter().map(|(n, _)| n.as_str()).collect();
    assert_eq!(names, vec!["default", "high_performance", "testing"]);
    assert_eq!(results[1].memory_usage[0].1, 0);
    let best = results[0].get_best_time();
    assert!(best <= results[0].default_time);
    assert!(best <= results[0].high_performance_time);
    assert!(best <= results[0].testing_time);
}

#[test]
fn full_comparison_runs_both_benchmarks() {
    let mut comparison = PerformanceComparison::default();
    comparison.run_full_comparison();
    assert_eq!(comparison.results().len(), 2);
    assert_eq!(comparison.results()[0].test_name, "DI Container Creation");
    assert_eq!(comparison.results()[1].test_name, "Configuration Access");
}
