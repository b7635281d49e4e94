use image_dedup::di_container::{DependencyConfig, DependencyContainer, DependencyContainerBuilder};
use image_dedup::factories::{
    ComponentConfig, ComponentParameters, HashPersistenceFactory, HasherSelection, ImageLoaderFactory,
    PerceptualHashFactory, PersistenceSelection, ProcessingConfigFactory, ProgressReporterFactory,
    ReporterSelection, StorageFactory, StorageSelection,
};
use image_dedup::image_loader::StandardImageLoader;
use image_dedup::perceptual_hash::AverageHasher;
use image_dedup::settings::ProcessingSettings;
use image_dedup::static_config::CustomConfigBuilder;
use image_dedup::static_factory::{
    AverageHashFactory, ConsoleProgressReporterFactory, DefaultProcessingConfigFactory,
    EnhancedStaticDIBuilder, LocalStorageFactory, MemoryHashPersistenceFactory,
    NoOpProgressReporterFactory, StandardImageLoaderFactory, StaticComponentFactory,
    StaticComponentFactoryWithPath,
};

fn params() -> ComponentParameters {
    ComponentParameters::empty()
}

#[test]
fn image_loader_factory_test_available_implementations() {
    let factory = ImageLoaderFactory::new();
    assert_eq!(factory.available_implementations(), vec!["standard"]);
}

#[test]
fn image_loader_factory_test_get_description() {
    let factory = ImageLoaderFactory::new();
    assert!(factory.get_description("standard").is_some());
    assert!(factory.get_description("unknown").is_none());
}

#[test]
fn storage_factory_test_available_implementations() {
    let factory = StorageFactory::new();
    assert_eq!(factory.available_implementations(), vec!["local"]);
}

#[test]
fn storage_factory_test_get_description() {
    let factory = StorageFactory::new();
    assert!(factory.get_description("local").is_some());
    assert!(factory.get_description("unknown").is_none());
}

#[test]
fn processing_config_factory_test_available_implementations() {
    let factory = ProcessingConfigFactory::new();
    assert_eq!(factory.available_implementations(), vec!["default"]);
}

#[test]
fn processing_config_factory_test_get_description() {
    let factory = ProcessingConfigFactory::new();
    assert!(factory.get_description("default").is_some());
    assert!(factory.get_description("unknown").is_none());
}

#[test]
fn progress_reporter_factory_test_available_implementations() {
    let factory = ProgressReporterFactory::new();
    assert_eq!(factory.available_implementations(), vec!["console", "noop"]);
}

#[test]
fn progress_reporter_factory_test_get_description() {
    let factory = ProgressReporterFactory::new();
    assert!(factory.get_description("console").is_some());
    assert!(factory.get_description("noop").is_some());
    assert!(factory.get_description("unknown").is_none());
}

#[test]
fn hash_persistence_factory_test_available_implementations() {
    let factory = HashPersistenceFactory::new();
    assert_eq!(factory.available_implementations(), vec!["json", "streaming_json", "memory"]);
}

#[test]
fn hash_persistence_factory_test_get_description() {
    let factory = HashPersistenceFactory::new();
    assert!(factory.get_description("json").is_some());
    assert!(factory.get_description("streaming_json").is_some());
    assert!(factory.get_description("memory").is_some());
    assert!(factory.get_description("unknown").is_none());
}

#[test]
fn perceptual_hash_factory_test_available_implementations() {
    let factory = PerceptualHashFactory::new();
    assert_eq!(factory.available_implementations(), vec!["dct", "average", "difference"]);
}

#[test]
fn perceptual_hash_factory_test_get_description() {
    let factory = PerceptualHashFactory::new();
    assert!(factory.get_description("dct").is_some());
    assert!(factory.get_description("average").is_some());
    assert!(factory.get_description("difference").is_some());
    assert!(factory.get_description("unknown").is_none());
}

#[test]
fn descriptions_are_exact() {
    assert_eq!(
        PerceptualHashFactory::new().get_description("average").unwrap(),
        "平均値ベースのパーセプチュアルハッシュ (高速)"
    );
    assert_eq!(
        ProgressReporterFactory::new().get_description("noop").unwrap(),
        "何もしない進捗報告 (テスト・ベンチマーク用)"
    );
}

#[test]
fn test_create_standard_image_loader() {
    let factory = ImageLoaderFactory::new();
    let config = ComponentConfig::new(
        "standard",
        ComponentParameters { max_dimension: Some(1024), ..params() },
    );
    let loader = factory.create(&config);
    assert!(loader.is_ok());
    assert_eq!(loader.unwrap().max_dimension(), Some(1024));
}

#[test]
fn test_create_standard_image_loader_with_default_params() {
    let factory = ImageLoaderFactory::new();
    let loader = factory.create(&ComponentConfig::new("standard", params()));
    assert!(loader.is_ok());
    assert_eq!(loader.unwrap().max_dimension(), Some(512));
}

#[test]
fn image_loader_factory_test_unsupported_implementation() {
    let factory = ImageLoaderFactory::new();
    let result = factory.create(&ComponentConfig::new("unsupported", params()));
    assert!(result.is_err());
    assert!(result.err().unwrap().contains("未サポートのImageLoader実装"));
}

#[test]
fn test_create_dct_hasher() {
    let factory = PerceptualHashFactory::new();
    let config = ComponentConfig::new("dct", ComponentParameters { size: Some(16), ..params() });
    let hasher = factory.create(&config);
    assert!(hasher.is_ok());
    assert!(matches!(hasher.ok().unwrap(), HasherSelection::Dct { size: 16 }));
}

#[test]
fn test_create_average_hasher() {
    let factory = PerceptualHashFactory::new();
    let config = ComponentConfig::new("average", ComponentParameters { size: Some(8), ..params() });
    let hasher = factory.create(&config);
    assert!(hasher.is_ok());
    match hasher.ok().unwrap() {
        HasherSelection::Average(h) => assert_eq!(h.get_size(), 8),
        _ => panic!("expected an average hasher"),
    }
}

#[test]
fn test_create_difference_hasher() {
    let factory = PerceptualHashFactory::new();
    let config = ComponentConfig::new("difference", ComponentParameters { size: Some(8), ..params() });
    let hasher = factory.create(&config);
    assert!(hasher.is_ok());
    match hasher.ok().unwrap() {
        HasherSelection::Difference(h) => assert_eq!(h.get_size(), 8),
        _ => panic!("expected a difference hasher"),
    }
}

#[test]
fn perceptual_hash_factory_test_create_with_default_params() {
    let factory = PerceptualHashFactory::new();
    let hasher = factory.create(&ComponentConfig::new("dct", params()));
    assert!(hasher.is_ok());
    assert!(matches!(hasher.ok().unwrap(), HasherSelection::Dct { size: 8 }));
    let hasher = factory.create(&ComponentConfig::new("average", params()));
    assert!(hasher.is_ok());
}

#[test]
fn perceptual_hash_factory_test_unsupported_implementation() {
    let factory = PerceptualHashFactory::new();
    let result = factory.create(&ComponentConfig::new("unsupported", params()));
    assert!(result.is_err());
    if let Err(error) = result {
        assert!(error.contains("未サポートのPerceptualHash実装"));
        assert_eq!(
            error,
            "未サポートのPerceptualHash実装: unsupported. 利用可能: dct, average, difference"
        );
    }
}

#[test]
fn perceptual_hash_factory_checks_sizes() {
    let factory = PerceptualHashFactory::new();
    let zero = ComponentConfig::new("average", ComponentParameters { size: Some(0), ..params() });
    assert_eq!(factory.create(&zero).err().unwrap(), "Size must be greater than 0");
    let big = ComponentConfig::new("dct", ComponentParameters { size: Some(65), ..params() });
    assert_eq!(
        factory.create(&big).err().unwrap(),
        "Size must be 64 or less for performance reasons"
    );
}

#[test]
fn test_create_default_processing_config() {
    let factory = ProcessingConfigFactory::new();
    let config = ComponentConfig::new(
        "default",
        ComponentParameters {
            max_concurrent: Some(4),
            buffer_size: Some(200),
            batch_size: Some(25),
            enable_progress: Some(false),
            ..params()
        },
    );
    let processing_config = factory.create(&config);
    assert!(processing_config.is_ok());
    let config_instance = processing_config.unwrap();
    assert_eq!(config_instance.max_concurrent_tasks, 4);
    assert_eq!(config_instance.channel_buffer_size, 200);
    assert_eq!(config_instance.batch_size, 25);
    assert!(!config_instance.enable_progress_reporting);
}

#[test]
fn processing_config_factory_test_create_with_default_params() {
    let factory = ProcessingConfigFactory::new();
    let processing_config = factory.create(&ComponentConfig::new("default", params()));
    assert!(processing_config.is_ok());
    let config_instance = processing_config.unwrap();
    assert!(config_instance.max_concurrent_tasks > 0);
    assert_eq!(config_instance.channel_buffer_size, 100);
    assert_eq!(config_instance.batch_size, 50);
    assert!(config_instance.enable_progress_reporting);
}

#[test]
fn processing_config_factory_test_unsupported_implementation() {
    let factory = ProcessingConfigFactory::new();
    let result = factory.create(&ComponentConfig::new("unsupported", params()));
    assert!(result.is_err());
    assert!(result.err().unwrap().contains("未サポートのProcessingConfig実装"));
}

#[test]
fn test_create_console_reporter() {
    let factory = ProgressReporterFactory::new();
    let config = ComponentConfig::new("console", ComponentParameters { quiet: Some(false), ..params() });
    let reporter = factory.create(&config);
    assert_eq!(reporter, Ok(ReporterSelection::Console { quiet: false }));
}

#[test]
fn test_create_quiet_console_reporter() {
    let factory = ProgressReporterFactory::new();
    let config = ComponentConfig::new("console", ComponentParameters { quiet: Some(true), ..params() });
    assert_eq!(factory.create(&config), Ok(ReporterSelection::Console { quiet: true }));
}

#[test]
fn test_create_noop_reporter() {
    let factory = ProgressReporterFactory::new();
    assert_eq!(factory.create(&ComponentConfig::new("noop", params())), Ok(ReporterSelection::NoOp));
}

#[test]
fn progress_reporter_factory_test_create_with_default_params() {
    let factory = ProgressReporterFactory::new();
    assert_eq!(
        factory.create(&ComponentConfig::new("console", params())),
        Ok(ReporterSelection::Console { quiet: false })
    );
}

#[test]
fn progress_reporter_factory_test_unsupported_implementation() {
    let factory = ProgressReporterFactory::new();
    let result = factory.create(&ComponentConfig::new("unsupported", params()));
    assert!(result.is_err());
    assert!(result.err().unwrap().contains("未サポートのProgressReporter実装"));
}

#[test]
fn test_create_local_storage() {
    let factory = StorageFactory::new();
    assert_eq!(factory.create(&ComponentConfig::new("local", params())), Ok(StorageSelection::Local));
}

#[test]
fn storage_factory_test_unsupported_implementation() {
    let factory = StorageFactory::new();
    let result = factory.create(&ComponentConfig::new("unsupported", params()));
    assert!(result.is_err());
    assert!(result.err().unwrap().contains("未サポートのStorage実装"));
}

#[test]
fn test_create_json_persistence() {
    let factory = HashPersistenceFactory::new();
    let persistence = factory.create(&ComponentConfig::new("json", params()), "test.json");
    assert!(persistence.is_ok());
    assert_eq!(persistence, Ok(PersistenceSelection::Json { output_path: "test.json".to_string() }));
}

#[test]
fn test_create_streaming_json_persistence() {
    let factory = HashPersistenceFactory::new();
    let config = ComponentConfig::new("streaming_json", ComponentParameters { buffer_size: Some(50), ..params() });
    let persistence = factory.create(&config, "test_streaming.json");
    assert!(persistence.is_ok());
    assert_eq!(
        persistence,
        Ok(PersistenceSelection::StreamingJson { output_path: "test_streaming.json".to_string(), buffer_size: 50 })
    );
}

#[test]
fn test_create_memory_persistence() {
    let factory = HashPersistenceFactory::new();
    let persistence = factory.create(&ComponentConfig::new("memory", params()), "dummy.json");
    assert!(persistence.is_ok());
    assert_eq!(persistence, Ok(PersistenceSelection::Memory));
}

#[test]
fn hash_persistence_factory_test_create_with_default_params() {
    let factory = HashPersistenceFactory::new();
    assert_eq!(
        factory.create(&ComponentConfig::new("streaming_json", params()), "test.json"),
        Ok(PersistenceSelection::StreamingJson { output_path: "test.json".to_string(), buffer_size: 100 })
    );
}

#[test]
fn hash_persistence_factory_test_unsupported_implementation() {
    let factory = HashPersistenceFactory::new();
    let result = factory.create(&ComponentConfig::new("unsupported", params()), "test.json");
    assert!(result.is_err());
    assert!(result.err().unwrap().contains("未サポートのHashPersistence実装"));
}

#[test]
fn test_dependency_config_creation() {
    let config = DependencyConfig::default_config();
    assert_eq!(config.image_loader.implementation, "standard");
    assert_eq!(config.perceptual_hash.implementation, "dct");
    assert_eq!(config.storage.implementation, "local");
    assert_eq!(config.processing_config.implementation, "default");
    assert_eq!(config.progress_reporter.implementation, "console");
    assert_eq!(config.hash_persistence.implementation, "streaming_json");
}

#[test]
fn test_dependency_container_creation() {
    let container = DependencyContainer::default();
    assert_eq!(container.config().image_loader.implementation, "standard");
}

#[test]
fn test_dependency_container_builder() {
    let container = DependencyContainerBuilder::new()
        .with_image_loader("standard", ComponentParameters { max_dimension: Some(1024), ..params() })
        .with_perceptual_hash("average", ComponentParameters { size: Some(16), ..params() })
        .build();
    assert_eq!(container.config().image_loader.implementation, "standard");
    assert_eq!(container.config().perceptual_hash.implementation, "average");
}

#[test]
fn test_component_config_update() {
    let mut container = DependencyContainer::default();
    let new_config = ComponentConfig::new("memory", params());
    container.update_component_config("hash_persistence", new_config).unwrap();
    assert_eq!(container.config().hash_persistence.implementation, "memory");
}

#[test]
fn test_invalid_component_update() {
    let mut container = DependencyContainer::default();
    let new_config = ComponentConfig::new("test", params());
    let result = container.update_component_config("invalid_component", new_config);
    assert!(result.is_err());
    assert_eq!(
        result.err().unwrap().message(),
        "設定エラー: 不明なコンポーネント: invalid_component"
    );
    assert_eq!(container.config().hash_persistence.implementation, "streaming_json");
}

#[test]
fn test_config_presets() {
    let default_container = DependencyContainer::with_preset("default").unwrap();
    assert_eq!(default_container.config().image_loader.implementation, "standard");
    let high_perf_container = DependencyContainer::with_preset("high_performance").unwrap();
    assert_eq!(high_perf_container.config().perceptual_hash.implementation, "dct");
    let test_container = DependencyContainer::with_preset("testing").unwrap();
    assert_eq!(test_container.config().progress_reporter.implementation, "noop");
    let invalid_result = DependencyContainer::with_preset("invalid");
    assert!(invalid_result.is_err());
}

#[test]
fn test_config_validation_valid() {
    let config = DependencyConfig::default_config();
    assert!(config.validate().is_ok());
    assert!(DependencyConfig::high_performance().validate().is_ok());
    assert!(DependencyConfig::for_testing().validate().is_ok());
}

#[test]
fn test_config_validation_invalid_image_loader() {
    let mut config = DependencyConfig::default_config();
    config.image_loader.implementation = "invalid_loader".to_string();
    let result = config.validate();
    assert!(result.is_err());
    let message = result.err().unwrap().message();
    assert!(message.contains("無効なImageLoader実装"));
    assert_eq!(message, "設定エラー: 無効なImageLoader実装: invalid_loader. 利用可能: standard");
}

#[test]
fn test_config_validation_invalid_perceptual_hash() {
    let mut config = DependencyConfig::default_config();
    config.perceptual_hash.implementation = "invalid_hasher".to_string();
    let result = config.validate();
    assert!(result.is_err());
    let message = result.err().unwrap().message();
    assert!(message.contains("無効なPerceptualHash実装"));
    assert!(message.ends_with("利用可能: dct, average, difference"));
}

#[test]
fn test_high_performance_config() {
    let config = DependencyConfig::high_performance();
    assert_eq!(config.perceptual_hash.implementation, "dct");
    assert_eq!(config.perceptual_hash.parameters.size, Some(32));
    assert_eq!(config.processing_config.parameters.max_concurrent, Some(16));
    assert_eq!(config.hash_persistence.parameters.buffer_size, Some(300));
}

#[test]
fn test_testing_config() {
    let config = DependencyConfig::for_testing();
    assert_eq!(config.perceptual_hash.implementation, "average");
    assert_eq!(config.progress_reporter.implementation, "noop");
    assert_eq!(config.hash_persistence.implementation, "memory");
    assert_eq!(config.processing_config.parameters.enable_progress, Some(false));
}

#[test]
fn test_builder_presets() {
    let container = DependencyContainerBuilder::high_performance().build();
    assert_eq!(container.config().processing_config.parameters.max_concurrent, Some(16));
    let container = DependencyContainerBuilder::for_testing().build();
    assert_eq!(container.config().progress_reporter.implementation, "noop");
}

#[test]
fn presets_resolve_to_components() {
    let bundle = DependencyContainer::with_preset("testing")
        .unwrap()
        .resolve_all_dependencies("test.json")
        .ok()
        .unwrap();
    assert_eq!(bundle.processing_config.max_concurrent_tasks, 2);
    assert_eq!(bundle.processing_config.batch_size, 5);
    assert_eq!(bundle.progress_reporter, ReporterSelection::NoOp);
    assert_eq!(bundle.hash_persistence, PersistenceSelection::Memory);
    assert_eq!(bundle.image_loader.max_dimension(), Some(512));
}

#[test]
fn test_enhanced_static_di_builder() {
    let _builder = EnhancedStaticDIBuilder::<1024, 8, 4, 100, 50, false>::new();
    assert!(EnhancedStaticDIBuilder::<1024, 8, 4, 100, 50, false>::validate_config());
    assert!(!EnhancedStaticDIBuilder::<0, 8, 4, 100, 50, false>::validate_config());
    let desc = EnhancedStaticDIBuilder::<1024, 32, 4, 100, 50, false>::config_description();
    assert!(desc.contains("high-precision"));
}

#[test]
fn enhanced_builder_descriptions() {
    assert_eq!(
        EnhancedStaticDIBuilder::<1024, 8, 4, 100, 50, true>::config_description(),
        "Quiet fast configuration"
    );
    assert!(!EnhancedStaticDIBuilder::<1024, 300, 4, 100, 50, true>::validate_config());
}

#[test]
fn test_const_factory_sizes() {
    assert_eq!(std::mem::size_of::<StandardImageLoaderFactory<512>>(), 0);
    assert_eq!(std::mem::size_of::<AverageHashFactory<8>>(), 0);
    assert_eq!(std::mem::size_of::<LocalStorageFactory>(), 0);
}

#[test]
fn static_factories_create_components() {
    assert_eq!(StandardImageLoaderFactory::<512>::description(), "標準画像ローダー - サイズ制限付き");
    assert_eq!(AverageHashFactory::<8>::description(), "平均ハッシュアルゴリズム");
    assert_eq!(AverageHashFactory::<16>::create().get_size(), 16);
    assert!(AverageHashFactory::<8>::try_create().is_ok());
    assert_eq!(StandardImageLoaderFactory::<512>::create().max_dimension(), None);
}

#[test]
fn test_static_component_factories() {
    let _loader = StandardImageLoaderFactory::<512>::create();
    let _hasher = AverageHashFactory::<8>::create();
    let _storage = LocalStorageFactory::create();
    let _config = DefaultProcessingConfigFactory::<4, 100, 50, true>::create();
    let _reporter = ConsoleProgressReporterFactory::<false>::create();
    let _noop_reporter = NoOpProgressReporterFactory::create();
}

#[test]
fn test_factory_descriptions() {
    assert_eq!(
        StandardImageLoaderFactory::<512>::description(),
        "標準画像ローダー - サイズ制限付き"
    );
    assert_eq!(
        AverageHashFactory::<8>::description(),
        "平均ハッシュアルゴリズム"
    );
    assert_eq!(
        LocalStorageFactory::description(),
        "ローカルファイルシステムストレージ"
    );
}

#[test]
fn test_const_config_creation() {
    let _builder: CustomConfigBuilder<
        StandardImageLoader,
        AverageHasher,
        StorageSelection,
        ProcessingSettings,
        ReporterSelection,
        PersistenceSelection,
    > = CustomConfigBuilder::new();
}

#[test]
fn static_factories_create_the_configured_components() {
    assert_eq!(LocalStorageFactory::create(), StorageSelection::Local);
    assert_eq!(
        DefaultProcessingConfigFactory::<4, 100, 50, true>::create(),
        ProcessingSettings {
            max_concurrent_tasks: 4,
            channel_buffer_size: 100,
            batch_size: 50,
            enable_progress_reporting: true,
        }
    );
    assert_eq!(ConsoleProgressReporterFactory::<true>::create(), ReporterSelection::Console { quiet: true });
    assert_eq!(ConsoleProgressReporterFactory::<false>::create(), ReporterSelection::Console { quiet: false });
    assert_eq!(NoOpProgressReporterFactory::create(), ReporterSelection::NoOp);
    assert_eq!(MemoryHashPersistenceFactory::create("out.json"), PersistenceSelection::Memory);
    assert_eq!(AverageHashFactory::<16>::create().get_size(), 16);
    assert_eq!(NoOpProgressReporterFactory::description(), "進捗報告なし");
    assert_eq!(MemoryHashPersistenceFactory::description(), "メモリ内永続化");
}

#[test]
fn default_try_create_gives_the_created_component() {
    assert!(matches!(LocalStorageFactory::try_create(), Ok(StorageSelection::Local)));
    assert!(matches!(NoOpProgressReporterFactory::try_create(), Ok(ReporterSelection::NoOp)));
    assert!(matches!(
        ConsoleProgressReporterFactory::<true>::try_create(),
        Ok(ReporterSelection::Console { quiet: true })
    ));
}
