use image_dedup::benchmarks::{BestConfig, PerformanceComparison, PerformanceMetrics};
use image_dedup::engine::{check_engine_settings, ProcessingEngine, ProcessingPipeline};
use image_dedup::error::{ErrorContext, ErrorSeverity, ProcessingError, ValidationError};
use image_dedup::settings::{ProcessingConfig, ProcessingSettings};
use image_dedup::static_config::{
    AdvancedConfigConstraints, DefaultConfig, HighPerformanceConfig, PerformanceLevel,
    StaticConfigValidator, TestingConfig, TypeConfig,
};
use image_dedup::types::{ProcessingMetadata, ProcessingOutcome};
use image_dedup::unified_di::{
    DIMode, PerformanceCharacteristics, ProcessingEngineFactory, ProcessingEngineVariant, UnifiedDI,
};
use std::sync::Arc;

#[test]
fn test_validation_error() {
    let validation_error = ValidationError::new("batch_size", "値は1以上である必要があります");
    assert_eq!(validation_error.field, "batch_size");
    assert_eq!(validation_error.reason, "値は1以上である必要があります");
    assert!(validation_error.message().contains("バリデーションエラー"));
}

#[test]
fn test_error_severity_levels() {
    assert_eq!(ErrorSeverity::Low.as_level(), 1);
    assert_eq!(ErrorSeverity::Medium.as_level(), 2);
    assert_eq!(ErrorSeverity::High.as_level(), 3);
    assert_eq!(ErrorSeverity::Critical.as_level(), 4);
    assert_eq!(ErrorSeverity::Low.as_str(), "LOW");
    assert_eq!(ErrorSeverity::Critical.as_str(), "CRITICAL");
}

#[test]
fn test_error_context_builder() {
    let context = ErrorContext::new("test_operation")
        .with_resource("/test/resource")
        .with_suggestion("Try restarting");
    assert_eq!(context.operation, "test_operation");
    assert_eq!(context.resource, Some("/test/resource".to_string()));
    assert_eq!(context.suggestion, Some("Try restarting".to_string()));
}

#[test]
fn test_processing_error_creation() {
    let file_error = ProcessingError::file_discovery("/test/path", "ファイルが見つかりません");
    assert!(file_error.message().contains("/test/path"));
    assert!(file_error.message().contains("ファイル発見エラー"));
    let parallel_error = ProcessingError::parallel_execution("並列処理が失敗しました");
    assert!(parallel_error.message().contains("並列処理エラー"));
    let config_error = ProcessingError::configuration("無効な設定です");
    assert!(config_error.message().contains("設定エラー"));
    let channel_error = ProcessingError::channel("チャンネルが閉じられました");
    assert!(channel_error.message().contains("チャンネルエラー"));
    let persistence_error = ProcessingError::persistence("書き込み失敗");
    assert!(persistence_error.message().contains("永続化エラー"));
    let internal_error = ProcessingError::internal("予期しないエラー");
    assert!(internal_error.message().contains("内部エラー"));
}

#[test]
fn test_error_display() {
    let error = ProcessingError::configuration("並列数は1以上である必要があります");
    let error_string = error.message();
    assert!(error_string.contains("設定エラー"));
    assert!(error_string.contains("並列数は1以上である必要があります"));
}

#[test]
fn test_image_processing_error() {
    let error = ProcessingError::image_processing("/path/to/image.jpg", "画像ファイルが破損しています");
    assert!(error.message().contains("画像処理エラー"));
    assert!(error.message().contains("/path/to/image.jpg"));
    assert!(error.message().contains("画像ファイルが破損しています"));
}

#[test]
fn test_error_severity() {
    let type_safety_error = ProcessingError::type_safety("型制約違反", "ImageLoader");
    assert_eq!(type_safety_error.severity(), ErrorSeverity::Critical);
    let validation_error = ProcessingError::validation("batch_size", "値が範囲外です");
    assert_eq!(validation_error.severity(), ErrorSeverity::Critical);
    let file_error = ProcessingError::file_discovery("/test", "Not found");
    assert_eq!(file_error.severity(), ErrorSeverity::Medium);
    assert!(ErrorSeverity::Critical > ErrorSeverity::High);
    assert!(ErrorSeverity::High > ErrorSeverity::Medium);
    assert!(ErrorSeverity::Medium > ErrorSeverity::Low);
}

#[test]
fn test_error_recoverability() {
    let type_safety_error = ProcessingError::type_safety("型制約違反", "ImageLoader");
    assert!(!type_safety_error.is_recoverable());
    let file_error = ProcessingError::file_discovery("/test", "Not found");
    assert!(file_error.is_recoverable());
    let config_error = ProcessingError::configuration("Invalid config");
    assert!(!config_error.is_recoverable());
}

#[test]
fn test_error_context() {
    let file_error = ProcessingError::file_discovery("/test/path", "Not found");
    let context = file_error.context();
    assert_eq!(context.operation, "file_discovery");
    assert_eq!(context.resource, Some("/test/path".to_string()));
    assert!(context.suggestion.is_some());
    let type_error = ProcessingError::type_safety("型制約違反", "ImageLoader");
    let context = type_error.context();
    assert_eq!(context.operation, "type_safety_check");
    assert_eq!(context.resource, Some("ImageLoader".to_string()));
    assert!(context.suggestion.is_some());
}

#[test]
fn error_messages_are_exact() {
    let e = ProcessingError::type_safety("m", "c");
    assert_eq!(e.message(), "型安全性エラー: m (コンポーネント: c)");
    let e = ProcessingError::resource_exhaustion("memory", "full");
    assert_eq!(e.message(), "リソース不足エラー: memory - full");
    assert_eq!(e.severity(), ErrorSeverity::High);
    assert!(e.is_recoverable());
    let ctx = ProcessingError::configuration("x").context();
    assert_eq!(ctx.operation, "configuration");
    assert_eq!(ctx.suggestion, Some("設定を確認してください: x".to_string()));
    let ctx = ProcessingError::channel("closed").context();
    assert_eq!(ctx.operation, "unknown");
    assert!(ctx.resource.is_none() && ctx.suggestion.is_none());
    assert_eq!(
        ValidationError::new("f", "r").message(),
        "バリデーションエラー: f - r"
    );
}

#[test]
fn test_config_constants() {
    assert_eq!(DefaultConfig::NAME, "default");
    assert_eq!(HighPerformanceConfig::NAME, "high_performance");
    assert_eq!(TestingConfig::NAME, "testing");
}

#[test]
fn test_performance_levels() {
    assert_eq!(DefaultConfig::PERFORMANCE_LEVEL, PerformanceLevel::Balanced);
    assert_eq!(HighPerformanceConfig::PERFORMANCE_LEVEL, PerformanceLevel::Fast);
    assert_eq!(TestingConfig::PERFORMANCE_LEVEL, PerformanceLevel::Fast);
}

#[test]
fn test_zero_cost_config() {
    assert_eq!(std::mem::size_of::<DefaultConfig>(), 0);
    assert_eq!(std::mem::size_of::<HighPerformanceConfig>(), 0);
    assert_eq!(std::mem::size_of::<TestingConfig>(), 0);
}

#[test]
fn test_advanced_config_constraints() {
    let min_batch = DefaultConfig::MIN_BATCH_SIZE;
    let max_batch = DefaultConfig::MAX_BATCH_SIZE;
    assert!(min_batch >= 1, "MIN_BATCH_SIZE should be at least 1, got {min_batch}");
    assert!(max_batch <= 100000, "MAX_BATCH_SIZE should be reasonable, got {max_batch}");
    assert!(min_batch <= max_batch);
    let min_buffer = DefaultConfig::MIN_BUFFER_SIZE;
    let max_buffer = DefaultConfig::MAX_BUFFER_SIZE;
    assert!(min_buffer >= 1);
    assert!(max_buffer <= 200000);
    assert!(min_buffer <= max_buffer);
    let min_threads = DefaultConfig::MIN_THREADS;
    let max_threads = DefaultConfig::MAX_THREADS;
    assert!(min_threads >= 1);
    assert!(max_threads <= 2048);
    assert!(min_threads <= max_threads);
    let min_hash = DefaultConfig::MIN_HASH_SIZE;
    let max_hash = DefaultConfig::MAX_HASH_SIZE;
    assert!(min_hash >= 4);
    assert!(max_hash <= 512);
    assert!(min_hash <= max_hash);
}

#[test]
fn preset_configs_pass_static_validation() {
    assert!(DefaultConfig::IS_VALID);
    assert!(HighPerformanceConfig::IS_VALID);
    assert!(TestingConfig::IS_VALID);
    assert_eq!(TestingConfig::ERROR_MESSAGE, "TestingConfig設定検証に失敗しました");
}

#[test]
fn test_processing_metadata_creation() {
    let metadata = ProcessingMetadata {
        file_size: 1024,
        processing_time_ms: 150,
        image_dimensions: (512, 512),
        was_resized: false,
    };
    assert_eq!(metadata.file_size, 1024);
    assert_eq!(metadata.processing_time_ms, 150);
    assert_eq!(metadata.image_dimensions, (512, 512));
    assert!(!metadata.was_resized);
}

#[test]
fn test_processing_result_success() {
    let metadata = ProcessingMetadata {
        file_size: 2048,
        processing_time_ms: 200,
        image_dimensions: (1024, 1024),
        was_resized: true,
    };
    let result = ProcessingOutcome::Success {
        file_path: "/test/image.jpg".to_string(),
        hash: "abcd1234".to_string(),
        algorithm: "DCT".to_string(),
        hash_bits: 0x12345678,
        metadata,
    };
    match result {
        ProcessingOutcome::Success { file_path, hash, algorithm: _, hash_bits: _, metadata } => {
            assert_eq!(file_path, "/test/image.jpg");
            assert_eq!(hash, "abcd1234");
            assert_eq!(metadata.file_size, 2048);
            assert!(metadata.was_resized);
        }
        ProcessingOutcome::Error { .. } => panic!("Expected Success variant"),
    }
}

#[test]
fn test_processing_result_error() {
    let result = ProcessingOutcome::Error {
        file_path: "/test/invalid.jpg".to_string(),
        error: "Failed to load image".to_string(),
    };
    assert!(!result.is_success());
    assert_eq!(result.file_path(), "/test/invalid.jpg");
    match result {
        ProcessingOutcome::Success { .. } => panic!("Expected Error variant"),
        ProcessingOutcome::Error { file_path, error } => {
            assert_eq!(file_path, "/test/invalid.jpg");
            assert_eq!(error, "Failed to load image");
        }
    }
}

#[test]
fn test_processing_metadata_debug() {
    let metadata = ProcessingMetadata {
        file_size: 1024,
        processing_time_ms: 150,
        image_dimensions: (512, 512),
        was_resized: false,
    };
    let debug_str = format!("{metadata:?}");
    assert!(debug_str.contains("file_size: 1024"));
    assert!(debug_str.contains("processing_time_ms: 150"));
    assert!(debug_str.contains("image_dimensions: (512, 512)"));
    assert!(debug_str.contains("was_resized: false"));
}

#[test]
fn test_unified_di_modes() {
    let static_di = UnifiedDI::static_default();
    assert_eq!(static_di.mode(), DIMode::Static);
    let dynamic_di = UnifiedDI::dynamic();
    assert_eq!(dynamic_di.mode(), DIMode::Dynamic);
    let default_di = UnifiedDI::default();
    assert_eq!(default_di.mode(), DIMode::Static);
}

#[test]
fn test_performance_characteristics() {
    let static_balanced = PerformanceCharacteristics::StaticBalanced;
    assert_eq!(static_balanced.dispatch_type(), "Static");
    assert_eq!(static_balanced.performance_level(), "Balanced");
    assert_eq!(static_balanced.estimated_overhead(), 0);
    let dynamic_fast = PerformanceCharacteristics::DynamicFast;
    assert_eq!(dynamic_fast.dispatch_type(), "Dynamic");
    assert_eq!(dynamic_fast.performance_level(), "Fast");
    assert_eq!(dynamic_fast.estimated_overhead(), 1);
}

#[test]
fn test_macro_creation() {
    let _static_di = UnifiedDI::static_default();
    let _dynamic_di = UnifiedDI::dynamic();
}

#[test]
fn test_zero_cost_unified_di() {
    assert_eq!(std::mem::size_of::<UnifiedDI>(), std::mem::size_of::<DIMode>());
    assert_eq!(std::mem::size_of::<DIMode>(), 1);
}

#[test]
fn test_invalid_preset() {
    let di = UnifiedDI::static_default();
    let result = di.create_engine_with_preset("invalid_preset", "out.json");
    assert!(result.is_err());
    assert!(result
        .err()
        .unwrap()
        .message()
        .contains("無効な静的プリセット"));
}

#[test]
fn engine_presets_choose_variants() {
    let engine = UnifiedDI::static_default().create_engine_with_preset("default", "out.json").unwrap();
    assert_eq!(engine.engine_type(), "StaticDefault");
    assert_eq!(engine.performance_characteristics(), PerformanceCharacteristics::StaticBalanced);
    let engine = UnifiedDI::dynamic().create_engine_with_preset("high_performance", "out.json").unwrap();
    assert_eq!(engine.engine_type(), "DynamicHighPerformance");
    assert_eq!(engine.performance_characteristics(), PerformanceCharacteristics::DynamicFast);
    assert!(matches!(
        ProcessingEngineFactory::create_optimal("default", "out.json", true).unwrap(),
        ProcessingEngineVariant::DefaultStatic(_)
    ));
    assert!(matches!(
        ProcessingEngineFactory::create_flexible("testing", "out.json").unwrap(),
        ProcessingEngineVariant::TestingDynamic(_)
    ));
    assert!(matches!(
        ProcessingEngineFactory::create_testing("out.json").unwrap(),
        ProcessingEngineVariant::TestingStatic(_)
    ));
    let err = UnifiedDI::dynamic().create_engine_with_preset("nope", "out.json").err().unwrap();
    assert_eq!(
        err.message(),
        "設定エラー: 無効なプリセット: nope. 利用可能: default, high_performance, testing"
    );
}

#[test]
fn engine_settings_are_checked() {
    let e = check_engine_settings(0, 10).err().unwrap();
    assert_eq!(e.message(), "設定エラー: 並列タスク数は1以上である必要があります");
    let e = check_engine_settings(4, 0).err().unwrap();
    assert_eq!(e.message(), "設定エラー: バッチサイズは1以上である必要があります");
    assert!(check_engine_settings(4, 10).is_ok());
}

#[test]
fn engine_holds_its_components() {
    let settings = ProcessingSettings {
        max_concurrent_tasks: 3,
        channel_buffer_size: 7,
        batch_size: 0,
        enable_progress_reporting: true,
    };
    let engine = ProcessingEngine::new(1u8, 2u16, 3u32, settings, "reporter", 9u64);
    assert_eq!(engine.config().max_concurrent_tasks(), 3);
    assert_eq!(engine.config().channel_buffer_size(), 7);
    assert!(engine.config().enable_progress_reporting());
    assert_eq!(*engine.reporter(), "reporter");
    assert_eq!(*engine.persistence(), 9u64);
    assert!(check_engine_settings(engine.config().max_concurrent_tasks(), engine.config().batch_size()).is_err());
    let pipeline = engine.pipeline();
    assert_eq!(*pipeline.loader(), 1u8);
    assert_eq!(*pipeline.hasher(), 2u16);
    let direct = ProcessingPipeline::new(Arc::new('l'), Arc::new('h'));
    assert_eq!(*direct.hasher(), 'h');
}

#[test]
fn engine_variant_debug_text() {
    let engine = UnifiedDI::static_default().create_engine_with_preset("testing", "out.json").unwrap();
    assert_eq!(engine.debug_text(), "TestingStatic(\"ProcessingEngine<TestingConfig>\")");
    let engine = ProcessingEngineFactory::create_flexible("default", "out.json").unwrap();
    assert_eq!(engine.debug_text(), "DefaultDynamic(\"BoxedProcessingEngine\")");
}

#[test]
fn test_performance_comparison_creation() {
    let comparison = PerformanceComparison::new();
    assert!(comparison.results().is_empty());
}

#[test]
fn performance_metrics_pick_fastest() {
    let m = PerformanceMetrics::new("t".to_string(), 30, 10, 20, Vec::new());
    assert_eq!(m.best_config, BestConfig::HighPerformance);
    assert_eq!(m.get_best_time(), 10);
    assert_eq!(m.best_config.name(), "high_performance");
    let tie = PerformanceMetrics::new("t".to_string(), 5, 5, 5, vec![("default".to_string(), 0)]);
    assert_eq!(tie.best_config, BestConfig::Default);
    let last = PerformanceMetrics::new("t".to_string(), 9, 8, 7, Vec::new());
    assert_eq!(last.best_config, BestConfig::Testing);
    let mut comparison = PerformanceComparison::default();
    comparison.record(last);
    assert_eq!(comparison.results().len(), 1);
    assert_eq!(comparison.results()[0].get_best_time(), 7);
}
