use vstd::prelude::*;
use crate::di_container::{
    is_configuration_error, lemma_presets_valid, DependencyBundle, DependencyContainer,
};
use crate::factories::persists_to;
use crate::static_config::{DefaultConfig, HighPerformanceConfig, TestingConfig};
use crate::static_di::{engine_created_by, StaticDIContainer, StaticProcessingEngine};
use crate::error::ProcessingError;
use crate::text::str_eq;

verus! {

/// How components are wired: fixed at compile time or chosen at run time.
#[derive(Debug, Clone, Copy, PartialEq, Eq, Structural)]
pub enum DIMode {
    Static,
    Dynamic,
}

/// Entry point that builds processing engines in either wiring mode.
pub struct UnifiedDI {
    mode: DIMode,
}

impl View for UnifiedDI {
    type V = DIMode;

    /// The wiring mode.
    closed spec fn view(&self) -> DIMode {
        self.mode
    }
}

/// Performance profile of an engine.
#[derive(Debug, Clone, Copy, PartialEq, Eq, Structural)]
pub enum PerformanceCharacteristics {
    StaticBalanced,
    StaticFast,
    StaticTesting,
    DynamicBalanced,
    DynamicFast,
    DynamicTesting,
}

impl PerformanceCharacteristics {
    pub open spec fn is_static(self) -> bool {
        self is StaticBalanced || self is StaticFast || self is StaticTesting
    }

    pub fn dispatch_type(&self) -> (r: &'static str)
        ensures
            r@ == (if self.is_static() {
                "Static"@
            } else {
                "Dynamic"@
            }),
    {
        match self {
            PerformanceCharacteristics::StaticBalanced
            | PerformanceCharacteristics::StaticFast
            | PerformanceCharacteristics::StaticTesting => "Static",
            _ => "Dynamic",
        }
    }

    pub fn performance_level(&self) -> (r: &'static str)
        ensures
            r@ == match self {
                PerformanceCharacteristics::StaticBalanced
                | PerformanceCharacteristics::DynamicBalanced => "Balanced"@,
                PerformanceCharacteristics::StaticFast
                | PerformanceCharacteristics::DynamicFast => "Fast"@,
                PerformanceCharacteristics::StaticTesting
                | PerformanceCharacteristics::DynamicTesting => "Testing"@,
            },
    {
        match self {
            PerformanceCharacteristics::StaticBalanced
            | PerformanceCharacteristics::DynamicBalanced => "Balanced",
            PerformanceCharacteristics::StaticFast
            | PerformanceCharacteristics::DynamicFast => "Fast",
            PerformanceCharacteristics::StaticTesting
            | PerformanceCharacteristics::DynamicTesting => "Testing",
        }
    }

    /// Relative dispatch overhead: 0 for static wiring, 1 for dynamic.
    pub fn estimated_overhead(&self) -> (r: u8)
        ensures
            r == (if self.is_static() {
                0u8
            } else {
                1u8
            }),
    {
        match self {
            PerformanceCharacteristics::StaticBalanced => 0,
            PerformanceCharacteristics::StaticFast => 0,
            PerformanceCharacteristics::StaticTesting => 0,
            PerformanceCharacteristics::DynamicBalanced => 1,
            PerformanceCharacteristics::DynamicFast => 1,
            PerformanceCharacteristics::DynamicTesting => 1,
        }
    }
}

/// An engine built for a preset: statically wired ones hold the preset's
/// engine, dynamically wired ones the components resolved for it.
pub enum ProcessingEngineVariant {
    DefaultStatic(StaticProcessingEngine<DefaultConfig>),
    HighPerformanceStatic(StaticProcessingEngine<HighPerformanceConfig>),
    TestingStatic(StaticProcessingEngine<TestingConfig>),
    DefaultDynamic(DependencyBundle),
    HighPerformanceDynamic(DependencyBundle),
    TestingDynamic(DependencyBundle),
}

impl ProcessingEngineVariant {
    pub fn engine_type(&self) -> (r: &'static str)
        ensures
            r@ == match self {
                ProcessingEngineVariant::DefaultStatic(_) => "StaticDefault"@,
                ProcessingEngineVariant::HighPerformanceStatic(_) => "StaticHighPerformance"@,
                ProcessingEngineVariant::TestingStatic(_) => "StaticTesting"@,
                ProcessingEngineVariant::DefaultDynamic(_) => "DynamicDefault"@,
                ProcessingEngineVariant::HighPerformanceDynamic(_) => "DynamicHighPerformance"@,
                ProcessingEngineVariant::TestingDynamic(_) => "DynamicTesting"@,
            },
    {
        match self {
            ProcessingEngineVariant::DefaultStatic(_) => "StaticDefault",
            ProcessingEngineVariant::HighPerformanceStatic(_) => "StaticHighPerformance",
            ProcessingEngineVariant::TestingStatic(_) => "StaticTesting",
            ProcessingEngineVariant::DefaultDynamic(_) => "DynamicDefault",
            ProcessingEngineVariant::HighPerformanceDynamic(_) => "DynamicHighPerformance",
            ProcessingEngineVariant::TestingDynamic(_) => "DynamicTesting",
        }
    }

    /// The variant as its debug rendering shows it: the variant's name and,
    /// in quotes, the kind of engine it holds.
    pub open spec fn debug_text_spec(&self) -> Seq<char> {
        match self {
            ProcessingEngineVariant::DefaultStatic(_) => "DefaultStatic(\"ProcessingEngine<DefaultConfig>\")"@,
            ProcessingEngineVariant::HighPerformanceStatic(_) => "HighPerformanceStatic(\"ProcessingEngine<HighPerformanceConfig>\")"@,
            ProcessingEngineVariant::TestingStatic(_) => "TestingStatic(\"ProcessingEngine<TestingConfig>\")"@,
            ProcessingEngineVariant::DefaultDynamic(_) => "DefaultDynamic(\"BoxedProcessingEngine\")"@,
            ProcessingEngineVariant::HighPerformanceDynamic(_) => "HighPerformanceDynamic(\"BoxedProcessingEngine\")"@,
            ProcessingEngineVariant::TestingDynamic(_) => "TestingDynamic(\"BoxedProcessingEngine\")"@,
        }
    }

    pub fn debug_text(&self) -> (r: &'static str)
        ensures
            r@ == self.debug_text_spec(),
    {
        match self {
            ProcessingEngineVariant::DefaultStatic(_) => "DefaultStatic(\"ProcessingEngine<DefaultConfig>\")",
            ProcessingEngineVariant::HighPerformanceStatic(_) => "HighPerformanceStatic(\"ProcessingEngine<HighPerformanceConfig>\")",
            ProcessingEngineVariant::TestingStatic(_) => "TestingStatic(\"ProcessingEngine<TestingConfig>\")",
            ProcessingEngineVariant::DefaultDynamic(_) => "DefaultDynamic(\"BoxedProcessingEngine\")",
            ProcessingEngineVariant::HighPerformanceDynamic(_) => "HighPerformanceDynamic(\"BoxedProcessingEngine\")",
            ProcessingEngineVariant::TestingDynamic(_) => "TestingDynamic(\"BoxedProcessingEngine\")",
        }
    }

    pub open spec fn characteristics_spec(&self) -> PerformanceCharacteristics {
        match self {
            ProcessingEngineVariant::DefaultStatic(_) => PerformanceCharacteristics::StaticBalanced,
            ProcessingEngineVariant::HighPerformanceStatic(_) => PerformanceCharacteristics::StaticFast,
            ProcessingEngineVariant::TestingStatic(_) => PerformanceCharacteristics::StaticTesting,
            ProcessingEngineVariant::DefaultDynamic(_) => PerformanceCharacteristics::DynamicBalanced,
            ProcessingEngineVariant::HighPerformanceDynamic(_) => PerformanceCharacteristics::DynamicFast,
            ProcessingEngineVariant::TestingDynamic(_) => PerformanceCharacteristics::DynamicTesting,
        }
    }

    pub fn performance_characteristics(&self) -> (r: PerformanceCharacteristics)
        ensures
            r == self.characteristics_spec(),
    {
        match self {
            ProcessingEngineVariant::DefaultStatic(_) => PerformanceCharacteristics::StaticBalanced,
            ProcessingEngineVariant::HighPerformanceStatic(_) => PerformanceCharacteristics::StaticFast,
            ProcessingEngineVariant::TestingStatic(_) => PerformanceCharacteristics::StaticTesting,
            ProcessingEngineVariant::DefaultDynamic(_) => PerformanceCharacteristics::DynamicBalanced,
            ProcessingEngineVariant::HighPerformanceDynamic(_) => PerformanceCharacteristics::DynamicFast,
            ProcessingEngineVariant::TestingDynamic(_) => PerformanceCharacteristics::DynamicTesting,
        }
    }
}

/// The engine variant a preset gives in a mode, or `None` for an unknown
/// preset.
pub open spec fn preset_variant_is(mode: DIMode, preset: Seq<char>, v: ProcessingEngineVariant) -> bool {
    match mode {
        DIMode::Static => {
            ||| (preset == "default"@ && v is DefaultStatic)
            ||| (preset == "high_performance"@ && v is HighPerformanceStatic)
            ||| (preset == "testing"@ && v is TestingStatic)
        },
        DIMode::Dynamic => {
            ||| (preset == "default"@ && v is DefaultDynamic)
            ||| (preset == "high_performance"@ && v is HighPerformanceDynamic)
            ||| (preset == "testing"@ && v is TestingDynamic)
        },
    }
}

/// Whether `preset` names one of the three presets.
pub open spec fn known_preset(preset: Seq<char>) -> bool {
    preset == "default"@ || preset == "high_performance"@ || preset == "testing"@
}

/// An engine built to write its results to `path`: a statically wired one
/// holds exactly the components its preset's provider creates, with the
/// persistence for `path`; a dynamically wired one has its persistence
/// writing to `path`.
pub open spec fn built_for_output(v: ProcessingEngineVariant, path: Seq<char>) -> bool {
    match v {
        ProcessingEngineVariant::DefaultStatic(e) => engine_created_by::<DefaultConfig>(e, path),
        ProcessingEngineVariant::HighPerformanceStatic(e) => engine_created_by::<HighPerformanceConfig>(
            e,
            path,
        ),
        ProcessingEngineVariant::TestingStatic(e) => engine_created_by::<TestingConfig>(e, path),
        ProcessingEngineVariant::DefaultDynamic(b) => persists_to(b.hash_persistence, path),
        ProcessingEngineVariant::HighPerformanceDynamic(b) => persists_to(b.hash_persistence, path),
        ProcessingEngineVariant::TestingDynamic(b) => persists_to(b.hash_persistence, path),
    }
}

/// What an unknown preset is answered with in each mode.
pub open spec fn unknown_preset_message(mode: DIMode, preset: Seq<char>) -> Seq<char> {
    match mode {
        DIMode::Static => "無効な静的プリセット: "@ + preset
            + ". 利用可能: default, high_performance, testing"@,
        DIMode::Dynamic => "無効なプリセット: "@ + preset
            + ". 利用可能: default, high_performance, testing"@,
    }
}

impl UnifiedDI {
    pub fn new(mode: DIMode) -> (r: Self)
        ensures
            r@ == mode,
    {
        UnifiedDI { mode }
    }

    pub fn static_default() -> (r: Self)
        ensures
            r@ == DIMode::Static,
    {
        UnifiedDI::new(DIMode::Static)
    }

    pub fn dynamic() -> (r: Self)
        ensures
            r@ == DIMode::Dynamic,
    {
        UnifiedDI::new(DIMode::Dynamic)
    }

    pub fn mode(&self) -> (r: DIMode)
        ensures
            r == self@,
    {
        self.mode
    }

    /// The engine for preset `default`, `high_performance` or `testing` in
    /// this mode, writing its results to `output_path`; an unknown preset is a
    /// configuration error.
    pub fn create_engine_with_preset(&self, preset: &str, output_path: &str) -> (r: Result<
        ProcessingEngineVariant,
        ProcessingError,
    >)
        ensures
            known_preset(preset@) ==> (r matches Ok(v) && preset_variant_is(self@, preset@, v)),
            !known_preset(preset@) ==> (r matches Err(e) && is_configuration_error(
                e,
                unknown_preset_message(self@, preset@),
            )),
            r matches Ok(v) ==> built_for_output(v, output_path@),
    {
        match self.mode {
            DIMode::Static => Self::create_static_engine_with_preset(preset, output_path),
            DIMode::Dynamic => Self::create_dynamic_engine_with_preset(preset, output_path),
        }
    }

    fn create_static_engine_with_preset(preset: &str, output_path: &str) -> (r: Result<
        ProcessingEngineVariant,
        ProcessingError,
    >)
        ensures
            known_preset(preset@) ==> (r matches Ok(v) && preset_variant_is(DIMode::Static, preset@, v)),
            !known_preset(preset@) ==> (r matches Err(e) && is_configuration_error(
                e,
                unknown_preset_message(DIMode::Static, preset@),
            )),
            r matches Ok(v) ==> built_for_output(v, output_path@),
    {
        if str_eq(preset, "default") {
            let container = StaticDIContainer::<DefaultConfig>::new();
            Ok(ProcessingEngineVariant::DefaultStatic(container.create_processing_engine(output_path)))
        } else if str_eq(preset, "high_performance") {
            let container = StaticDIContainer::<HighPerformanceConfig>::new();
            Ok(
                ProcessingEngineVariant::HighPerformanceStatic(
                    container.create_processing_engine(output_path),
                ),
            )
        } else if str_eq(preset, "testing") {
            let container = StaticDIContainer::<TestingConfig>::new();
            Ok(ProcessingEngineVariant::TestingStatic(container.create_processing_engine(output_path)))
        } else {
            let message = String::from_str("無効な静的プリセット: ").concat(preset).concat(
                ". 利用可能: default, high_performance, testing",
            );
            Err(ProcessingError::configuration(message.as_str()))
        }
    }

    fn create_dynamic_engine_with_preset(preset: &str, output_path: &str) -> (r: Result<
        ProcessingEngineVariant,
        ProcessingError,
    >)
        ensures
            known_preset(preset@) ==> (r matches Ok(v) && preset_variant_is(DIMode::Dynamic, preset@, v)),
            !known_preset(preset@) ==> (r matches Err(e) && is_configuration_error(
                e,
                unknown_preset_message(DIMode::Dynamic, preset@),
            )),
            r matches Ok(v) ==> built_for_output(v, output_path@),
    {
        let container = match DependencyContainer::with_preset(preset) {
            Ok(c) => c,
            Err(e) => return Err(e),
        };
        proof {
            lemma_presets_valid(container@);
        }
        let bundle = match container.resolve_all_dependencies(output_path) {
            Ok(b) => b,
            Err(e) => return Err(e),
        };
        if str_eq(preset, "default") {
            Ok(ProcessingEngineVariant::DefaultDynamic(bundle))
        } else if str_eq(preset, "high_performance") {
            Ok(ProcessingEngineVariant::HighPerformanceDynamic(bundle))
        } else if str_eq(preset, "testing") {
            Ok(ProcessingEngineVariant::TestingDynamic(bundle))
        } else {
            let message = String::from_str("無効な動的プリセット: ").concat(preset);
            Err(ProcessingError::configuration(message.as_str()))
        }
    }
}

impl Default for UnifiedDI {
    fn default() -> (r: Self)
        ensures
            r@ == DIMode::Static,
    {
        UnifiedDI::static_default()
    }
}

/// Builds engines, choosing the wiring mode from a preference.
pub struct ProcessingEngineFactory;

impl ProcessingEngineFactory {
    /// Static wiring when performance is preferred, dynamic otherwise.
    pub fn create_optimal(preset: &str, output_path: &str, prefer_performance: bool) -> (r: Result<
        ProcessingEngineVariant,
        ProcessingError,
    >)
        ensures
            ({
                let mode = if prefer_performance {
                    DIMode::Static
                } else {
                    DIMode::Dynamic
                };
                &&& known_preset(preset@) ==> (r matches Ok(v) && preset_variant_is(mode, preset@, v))
                &&& !known_preset(preset@) ==> (r matches Err(e) && is_configuration_error(
                    e,
                    unknown_preset_message(mode, preset@),
                ))
            }),
            r matches Ok(v) ==> built_for_output(v, output_path@),
    {
        let mode = if prefer_performance {
            DIMode::Static
        } else {
            DIMode::Dynamic
        };
        UnifiedDI::new(mode).create_engine_with_preset(preset, output_path)
    }

    pub fn create_default(output_path: &str) -> (r: Result<ProcessingEngineVariant, ProcessingError>)
        ensures
            r matches Ok(v) && v is DefaultStatic && built_for_output(v, output_path@),
    {
        proof {
            reveal_strlit("default");
            reveal_strlit("high_performance");
            reveal_strlit("testing");
            assert("default"@[0] != "testing"@[0]);
            assert("default"@.len() != "high_performance"@.len());
        }
        Self::create_optimal("default", output_path, true)
    }

    pub fn create_high_performance(output_path: &str) -> (r: Result<
        ProcessingEngineVariant,
        ProcessingError,
    >)
        ensures
            r matches Ok(v) && v is HighPerformanceStatic && built_for_output(v, output_path@),
    {
        proof {
            reveal_strlit("high_performance");
            reveal_strlit("default");
            reveal_strlit("testing");
            assert("high_performance"@.len() != "default"@.len());
            assert("high_performance"@.len() != "testing"@.len());
        }
        Self::create_optimal("high_performance", output_path, true)
    }

    pub fn create_testing(output_path: &str) -> (r: Result<ProcessingEngineVariant, ProcessingError>)
        ensures
            r matches Ok(v) && v is TestingStatic && built_for_output(v, output_path@),
    {
        proof {
            reveal_strlit("testing");
            reveal_strlit("default");
            reveal_strlit("high_performance");
            assert("testing"@[0] != "default"@[0]);
            assert("testing"@.len() != "high_performance"@.len());
        }
        Self::create_optimal("testing", output_path, true)
    }

    /// Dynamic wiring, for flexibility.
    pub fn create_flexible(preset: &str, output_path: &str) -> (r: Result<
        ProcessingEngineVariant,
        ProcessingError,
    >)
        ensures
            known_preset(preset@) ==> (r matches Ok(v) && preset_variant_is(DIMode::Dynamic, preset@, v)),
            !known_preset(preset@) ==> (r matches Err(e) && is_configuration_error(
                e,
                unknown_preset_message(DIMode::Dynamic, preset@),
            )),
            r matches Ok(v) ==> built_for_output(v, output_path@),
    {
        Self::create_optimal(preset, output_path, false)
    }
}

/// An engine built for a preset is statically dispatched exactly when it was
/// built in static mode, and then its estimated overhead is zero.
pub proof fn lemma_variant_dispatch_matches_mode(mode: DIMode, preset: Seq<char>, v: ProcessingEngineVariant)
    requires
        preset_variant_is(mode, preset, v),
    ensures
        v.characteristics_spec().is_static() <==> mode == DIMode::Static,
{
}

} // verus!
