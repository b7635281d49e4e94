use vstd::prelude::*;
use crate::error::ProcessingError;
use crate::factories::{
    ComponentConfig, ComponentParameters, HashPersistenceFactory, HasherSelection,
    ImageLoaderFactory, PerceptualHashFactory, PersistenceSelection, ProcessingConfigFactory, persists_to,
    ProgressReporterFactory, ReporterSelection, StorageFactory, StorageSelection,
};
use crate::image_loader::StandardImageLoader;
use crate::settings::ProcessingSettings;
use crate::text::{comma_joined, contains_str, join_comma, owned, str_eq, string_views};

verus! {

/// The components of a processing engine, each by implementation name and
/// parameters.
#[derive(Debug, Clone)]
pub struct DependencyConfig {
    pub image_loader: ComponentConfig,
    pub perceptual_hash: ComponentConfig,
    pub storage: ComponentConfig,
    pub processing_config: ComponentConfig,
    pub progress_reporter: ComponentConfig,
    pub hash_persistence: ComponentConfig,
}

/// Parameters with nothing set.
pub open spec fn no_params() -> ComponentParameters {
    ComponentParameters {
        max_dimension: None,
        size: None,
        max_concurrent: None,
        buffer_size: None,
        batch_size: None,
        enable_progress: None,
        quiet: None,
    }
}

/// Whether a component has implementation `name` and parameters `params`.
pub open spec fn component_is(c: ComponentConfig, name: Seq<char>, params: ComponentParameters) -> bool {
    c.implementation@ == name && c.parameters == params
}

fn component(name: &str, params: ComponentParameters) -> (r: ComponentConfig)
    ensures
        component_is(r, name@, params),
{
    ComponentConfig::new(name, params)
}

/// Names that each component accepts, as its factory lists them.
pub open spec fn image_loader_names() -> Seq<Seq<char>> {
    seq!["standard"@]
}

pub open spec fn perceptual_hash_names() -> Seq<Seq<char>> {
    seq!["dct"@, "average"@, "difference"@]
}

pub open spec fn storage_names() -> Seq<Seq<char>> {
    seq!["local"@]
}

pub open spec fn processing_config_names() -> Seq<Seq<char>> {
    seq!["default"@]
}

pub open spec fn progress_reporter_names() -> Seq<Seq<char>> {
    seq!["console"@, "noop"@]
}

pub open spec fn hash_persistence_names() -> Seq<Seq<char>> {
    seq!["json"@, "streaming_json"@, "memory"@]
}

/// The message for a component whose implementation is not available.
pub open spec fn invalid_component_message(kind: Seq<char>, name: Seq<char>, available: Seq<Seq<char>>) -> Seq<char> {
    "無効な"@ + kind + "実装: "@ + name + ". 利用可能: "@ + comma_joined(available)
}

/// The first component, in declaration order, whose implementation its
/// factory does not offer: its kind, its name and the available names.
pub open spec fn first_invalid(c: DependencyConfig) -> Option<(Seq<char>, Seq<char>, Seq<Seq<char>>)> {
    if !image_loader_names().contains(c.image_loader.implementation@) {
        Some(("ImageLoader"@, c.image_loader.implementation@, image_loader_names()))
    } else if !perceptual_hash_names().contains(c.perceptual_hash.implementation@) {
        Some(("PerceptualHash"@, c.perceptual_hash.implementation@, perceptual_hash_names()))
    } else if !storage_names().contains(c.storage.implementation@) {
        Some(("Storage"@, c.storage.implementation@, storage_names()))
    } else if !processing_config_names().contains(c.processing_config.implementation@) {
        Some(("ProcessingConfig"@, c.processing_config.implementation@, processing_config_names()))
    } else if !progress_reporter_names().contains(c.progress_reporter.implementation@) {
        Some(("ProgressReporter"@, c.progress_reporter.implementation@, progress_reporter_names()))
    } else if !hash_persistence_names().contains(c.hash_persistence.implementation@) {
        Some(("HashPersistence"@, c.hash_persistence.implementation@, hash_persistence_names()))
    } else {
        None
    }
}

/// Whether `r` is a configuration error with message `message`.
pub open spec fn is_configuration_error(r: ProcessingError, message: Seq<char>) -> bool {
    r matches ProcessingError::ConfigurationError { message: m } && m@ == message
}

/// Accepts `name` when `available` holds it, else gives the configuration
/// error that lists the available names.
fn check_component(kind: &str, name: &str, available: Vec<String>) -> (r: Result<(), ProcessingError>)
    ensures
        string_views(available@).contains(name@) ==> r is Ok,
        !string_views(available@).contains(name@) ==> (r matches Err(e) && is_configuration_error(
            e,
            invalid_component_message(kind@, name@, string_views(available@)),
        )),
{
    if contains_str(&available, name) {
        Ok(())
    } else {
        let message = String::from_str("無効な").concat(kind).concat("実装: ").concat(name).concat(
            ". 利用可能: ",
        ).concat(join_comma(&available).as_str());
        Err(ProcessingError::configuration(message.as_str()))
    }
}

/// The default preset: standard loader capped at 512, DCT hash of size 8,
/// local storage, default processing (CPU-based concurrency, buffer 100,
/// batch 50, progress on), console reporter, streaming JSON with a buffer of
/// 100.
pub open spec fn is_default_config(r: DependencyConfig) -> bool {
    &&& component_is(r.image_loader, "standard"@, ComponentParameters { max_dimension: Some(512), ..no_params() })
    &&& component_is(r.perceptual_hash, "dct"@, ComponentParameters { size: Some(8), ..no_params() })
    &&& component_is(r.storage, "local"@, no_params())
    &&& component_is(r.processing_config, "default"@, ComponentParameters {
        buffer_size: Some(100),
        batch_size: Some(50),
        enable_progress: Some(true),
        ..no_params()
    })
    &&& component_is(r.progress_reporter, "console"@, ComponentParameters { quiet: Some(false), ..no_params() })
    &&& component_is(r.hash_persistence, "streaming_json"@, ComponentParameters { buffer_size: Some(100), ..no_params() })
}

/// The high performance preset: loader capped at 2048, DCT hash of size 32,
/// 16 concurrent tasks, buffer 500, batch 100, streaming JSON buffer 300.
pub open spec fn is_high_performance_config(r: DependencyConfig) -> bool {
    &&& component_is(r.image_loader, "standard"@, ComponentParameters { max_dimension: Some(2048), ..no_params() })
    &&& component_is(r.perceptual_hash, "dct"@, ComponentParameters { size: Some(32), ..no_params() })
    &&& component_is(r.storage, "local"@, no_params())
    &&& component_is(r.processing_config, "default"@, ComponentParameters {
        max_concurrent: Some(16),
        buffer_size: Some(500),
        batch_size: Some(100),
        enable_progress: Some(true),
        ..no_params()
    })
    &&& component_is(r.progress_reporter, "console"@, ComponentParameters { quiet: Some(false), ..no_params() })
    &&& component_is(r.hash_persistence, "streaming_json"@, ComponentParameters { buffer_size: Some(300), ..no_params() })
}

/// The testing preset: average hash of size 8, 2 concurrent tasks, buffer
/// 10, batch 5, no progress, silent reporter, memory persistence.
pub open spec fn is_testing_config(r: DependencyConfig) -> bool {
    &&& component_is(r.image_loader, "standard"@, ComponentParameters { max_dimension: Some(512), ..no_params() })
    &&& component_is(r.perceptual_hash, "average"@, ComponentParameters { size: Some(8), ..no_params() })
    &&& component_is(r.storage, "local"@, no_params())
    &&& component_is(r.processing_config, "default"@, ComponentParameters {
        max_concurrent: Some(2),
        buffer_size: Some(10),
        batch_size: Some(5),
        enable_progress: Some(false),
        ..no_params()
    })
    &&& component_is(r.progress_reporter, "noop"@, no_params())
    &&& component_is(r.hash_persistence, "memory"@, no_params())
}

impl DependencyConfig {
    /// The default preset.
    pub fn default_config() -> (r: Self)
        ensures
            is_default_config(r),
    {
        let e = ComponentParameters::empty();
        DependencyConfig {
            image_loader: component("standard", ComponentParameters { max_dimension: Some(512), ..e }),
            perceptual_hash: component("dct", ComponentParameters { size: Some(8), ..e }),
            storage: component("local", e),
            processing_config: component(
                "default",
                ComponentParameters {
                    buffer_size: Some(100),
                    batch_size: Some(50),
                    enable_progress: Some(true),
                    ..e
                },
            ),
            progress_reporter: component("console", ComponentParameters { quiet: Some(false), ..e }),
            hash_persistence: component("streaming_json", ComponentParameters { buffer_size: Some(100), ..e }),
        }
    }

    /// The high performance preset.
    pub fn high_performance() -> (r: Self)
        ensures
            is_high_performance_config(r),
    {
        let e = ComponentParameters::empty();
        DependencyConfig {
            image_loader: component("standard", ComponentParameters { max_dimension: Some(2048), ..e }),
            perceptual_hash: component("dct", ComponentParameters { size: Some(32), ..e }),
            storage: component("local", e),
            processing_config: component(
                "default",
                ComponentParameters {
                    max_concurrent: Some(16),
                    buffer_size: Some(500),
                    batch_size: Some(100),
                    enable_progress: Some(true),
                    ..e
                },
            ),
            progress_reporter: component("console", ComponentParameters { quiet: Some(false), ..e }),
            hash_persistence: component("streaming_json", ComponentParameters { buffer_size: Some(300), ..e }),
        }
    }

    /// The testing preset.
    pub fn for_testing() -> (r: Self)
        ensures
            is_testing_config(r),
    {
        let e = ComponentParameters::empty();
        DependencyConfig {
            image_loader: component("standard", ComponentParameters { max_dimension: Some(512), ..e }),
            perceptual_hash: component("average", ComponentParameters { size: Some(8), ..e }),
            storage: component("local", e),
            processing_config: component(
                "default",
                ComponentParameters {
                    max_concurrent: Some(2),
                    buffer_size: Some(10),
                    batch_size: Some(5),
                    enable_progress: Some(false),
                    ..e
                },
            ),
            progress_reporter: component("noop", e),
            hash_persistence: component("memory", e),
        }
    }

    /// Accepts the configuration when each component names an implementation
    /// its factory offers; else the configuration error for the first one
    /// that does not.
    pub fn validate(&self) -> (r: Result<(), ProcessingError>)
        ensures
            match first_invalid(*self) {
                None => r is Ok,
                Some((kind, name, available)) => r matches Err(e) && is_configuration_error(
                    e,
                    invalid_component_message(kind, name, available),
                ),
            },
    {
        let r1 = check_component(
            "ImageLoader",
            self.image_loader.implementation.as_str(),
            ImageLoaderFactory::new().available_implementations(),
        );
        if r1.is_err() {
            return r1;
        }
        let r2 = check_component(
            "PerceptualHash",
            self.perceptual_hash.implementation.as_str(),
            PerceptualHashFactory::new().available_implementations(),
        );
        if r2.is_err() {
            return r2;
        }
        let r3 = check_component(
            "Storage",
            self.storage.implementation.as_str(),
            StorageFactory::new().available_implementations(),
        );
        if r3.is_err() {
            return r3;
        }
        let r4 = check_component(
            "ProcessingConfig",
            self.processing_config.implementation.as_str(),
            ProcessingConfigFactory::new().available_implementations(),
        );
        if r4.is_err() {
            return r4;
        }
        let r5 = check_component(
            "ProgressReporter",
            self.progress_reporter.implementation.as_str(),
            ProgressReporterFactory::new().available_implementations(),
        );
        if r5.is_err() {
            return r5;
        }
        check_component(
            "HashPersistence",
            self.hash_persistence.implementation.as_str(),
            HashPersistenceFactory::new().available_implementations(),
        )
    }
}

/// The components resolved from a configuration.
pub struct DependencyBundle {
    pub image_loader: StandardImageLoader,
    pub perceptual_hash: HasherSelection,
    pub storage: StorageSelection,
    pub processing_config: ProcessingSettings,
    pub progress_reporter: ReporterSelection,
    pub hash_persistence: PersistenceSelection,
}

/// Whether `r` is a dependency injection error with message `message`.
pub open spec fn is_injection_error(r: ProcessingError, message: Seq<char>) -> bool {
    r matches ProcessingError::DependencyInjectionError { message: m } && m@ == message
}

/// Wraps a factory's error as a dependency injection error naming the
/// component.
fn injection_error(component: &str, cause: String) -> (r: ProcessingError)
    ensures
        is_injection_error(r, component@ + "作成エラー: "@ + cause@),
{
    let message = String::from_str(component).concat("作成エラー: ").concat(cause.as_str());
    ProcessingError::dependency_injection(message.as_str())
}

/// Holds a dependency configuration and creates the components it names.
pub struct DependencyContainer {
    config: DependencyConfig,
}

impl View for DependencyContainer {
    type V = DependencyConfig;

    /// The configuration held.
    closed spec fn view(&self) -> DependencyConfig {
        self.config
    }
}

impl DependencyContainer {
    pub fn new(config: DependencyConfig) -> (r: Self)
        ensures
            r@ == config,
    {
        DependencyContainer { config }
    }

    pub fn with_default_config() -> (r: Self)
        ensures
            is_default_config(r@),
    {
        DependencyContainer::new(DependencyConfig::default_config())
    }

    /// A container with the configuration of preset `default`,
    /// `high_performance` or `testing`; other names are refused.
    pub fn with_preset(preset: &str) -> (r: Result<Self, ProcessingError>)
        ensures
            preset@ == "default"@ ==> (r matches Ok(c) && is_default_config(c@)),
            preset@ == "high_performance"@ ==> (r matches Ok(c) && is_high_performance_config(c@)),
            preset@ == "testing"@ ==> (r matches Ok(c) && is_testing_config(c@)),
            preset@ != "default"@ && preset@ != "high_performance"@ && preset@ != "testing"@ ==> (r matches Err(e)
                && is_configuration_error(
                e,
                "無効なプリセット: "@ + preset@ + ". 利用可能: default, high_performance, testing"@,
            )),
    {
        proof {
            reveal_strlit("default");
            reveal_strlit("high_performance");
            reveal_strlit("testing");
            assert("default"@.len() == 7);
            assert("high_performance"@.len() == 16);
            assert("testing"@.len() == 7);
            assert("default"@[0] == 'd');
            assert("testing"@[0] == 't');
        }
        if str_eq(preset, "default") {
            Ok(DependencyContainer::new(DependencyConfig::default_config()))
        } else if str_eq(preset, "high_performance") {
            Ok(DependencyContainer::new(DependencyConfig::high_performance()))
        } else if str_eq(preset, "testing") {
            Ok(DependencyContainer::new(DependencyConfig::for_testing()))
        } else {
            let message = String::from_str("無効なプリセット: ").concat(preset).concat(
                ". 利用可能: default, high_performance, testing",
            );
            Err(ProcessingError::configuration(message.as_str()))
        }
    }

    pub fn config(&self) -> (r: &DependencyConfig)
        ensures
            *r == self@,
    {
        &self.config
    }

    pub fn update_config(&mut self, config: DependencyConfig)
        ensures
            final(self)@ == config,
    {
        self.config = config;
    }

    /// Replaces the configuration of the component named `component`; an
    /// unknown name is refused and leaves the container as it was.
    pub fn update_component_config(&mut self, component: &str, config: ComponentConfig) -> (r: Result<(), ProcessingError>)
        ensures
            component@ == "image_loader"@ ==> r is Ok && final(self)@ == (DependencyConfig { image_loader: config, ..old(self)@ }),
            component@ == "perceptual_hash"@ ==> r is Ok && final(self)@ == (DependencyConfig { perceptual_hash: config, ..old(self)@ }),
            component@ == "storage"@ ==> r is Ok && final(self)@ == (DependencyConfig { storage: config, ..old(self)@ }),
            component@ == "processing_config"@ ==> r is Ok && final(self)@ == (DependencyConfig { processing_config: config, ..old(self)@ }),
            component@ == "progress_reporter"@ ==> r is Ok && final(self)@ == (DependencyConfig { progress_reporter: config, ..old(self)@ }),
            component@ == "hash_persistence"@ ==> r is Ok && final(self)@ == (DependencyConfig { hash_persistence: config, ..old(self)@ }),
            !component_name(component@) ==> (r matches Err(e) && is_configuration_error(
                e,
                "不明なコンポーネント: "@ + component@,
            ) && final(self)@ == old(self)@),
    {
        proof {
            reveal_strlit("image_loader");
            reveal_strlit("perceptual_hash");
            reveal_strlit("storage");
            reveal_strlit("processing_config");
            reveal_strlit("progress_reporter");
            reveal_strlit("hash_persistence");
            assert("image_loader"@.len() == 12);
            assert("perceptual_hash"@.len() == 15);
            assert("storage"@.len() == 7);
            assert("processing_config"@.len() == 17);
            assert("progress_reporter"@.len() == 17);
            assert("hash_persistence"@.len() == 16);
            assert("processing_config"@[1] == 'r');
            assert("progress_reporter"@[3] == 'g');
        }
        if str_eq(component, "image_loader") {
            self.config.image_loader = config;
        } else if str_eq(component, "perceptual_hash") {
            self.config.perceptual_hash = config;
        } else if str_eq(component, "storage") {
            self.config.storage = config;
        } else if str_eq(component, "processing_config") {
            self.config.processing_config = config;
        } else if str_eq(component, "progress_reporter") {
            self.config.progress_reporter = config;
        } else if str_eq(component, "hash_persistence") {
            self.config.hash_persistence = config;
        } else {
            let message = String::from_str("不明なコンポーネント: ").concat(component);
            return Err(ProcessingError::configuration(message.as_str()));
        }
        Ok(())
    }

    pub fn create_image_loader(&self) -> (r: Result<StandardImageLoader, ProcessingError>)
        ensures
            self@.image_loader.implementation@ == "standard"@ ==> (r matches Ok(l) && l@ == Some(
                crate::factories::param_or(self@.image_loader.parameters.max_dimension, 512) as u32,
            )),
            self@.image_loader.implementation@ != "standard"@ ==> (r matches Err(e) && is_injection_error(
                e,
                "ImageLoader"@ + "作成エラー: "@ + crate::factories::unsupported_message("ImageLoader"@, self@.image_loader.implementation@, "standard"@),
            )),
    {
        match ImageLoaderFactory::new().create(&self.config.image_loader) {
            Ok(l) => Ok(l),
            Err(e) => Err(injection_error("ImageLoader", e)),
        }
    }

    pub fn create_perceptual_hash(&self) -> (r: Result<HasherSelection, ProcessingError>)
        ensures
            r is Ok <==> (perceptual_hash_names().contains(self@.perceptual_hash.implementation@) && (
                self@.perceptual_hash.implementation@ == "difference"@ || 1 <= (crate::factories::param_or(
                self@.perceptual_hash.parameters.size, 8) as u32) <= 64)),
    {
        proof {
            reveal_strlit("dct");
            reveal_strlit("average");
            reveal_strlit("difference");
            assert("dct"@.len() == 3);
            assert("average"@.len() == 7);
            assert("difference"@.len() == 10);
            assert(perceptual_hash_names()[0] == "dct"@);
        }
        match PerceptualHashFactory::new().create(&self.config.perceptual_hash) {
            Ok(h) => Ok(h),
            Err(e) => Err(injection_error("PerceptualHash", e)),
        }
    }

    pub fn create_storage(&self) -> (r: Result<StorageSelection, ProcessingError>)
        ensures
            r is Ok <==> self@.storage.implementation@ == "local"@,
    {
        match StorageFactory::new().create(&self.config.storage) {
            Ok(s) => Ok(s),
            Err(e) => Err(injection_error("Storage", e)),
        }
    }

    pub fn create_processing_config(&self) -> (r: Result<ProcessingSettings, ProcessingError>)
        ensures
            r is Ok <==> self@.processing_config.implementation@ == "default"@,
    {
        match ProcessingConfigFactory::new().create(&self.config.processing_config) {
            Ok(s) => Ok(s),
            Err(e) => Err(injection_error("ProcessingConfig", e)),
        }
    }

    pub fn create_progress_reporter(&self) -> (r: Result<ReporterSelection, ProcessingError>)
        ensures
            r is Ok <==> progress_reporter_names().contains(self@.progress_reporter.implementation@),
    {
        proof {
            reveal_strlit("console");
            reveal_strlit("noop");
            assert(progress_reporter_names()[0] == "console"@);
            assert(progress_reporter_names()[1] == "noop"@);
        }
        match ProgressReporterFactory::new().create(&self.config.progress_reporter) {
            Ok(s) => Ok(s),
            Err(e) => Err(injection_error("ProgressReporter", e)),
        }
    }

    /// The persistence the configuration names, writing to `output_path`.
    pub fn create_hash_persistence(&self, output_path: &str) -> (r: Result<
        PersistenceSelection,
        ProcessingError,
    >)
        ensures
            r is Ok <==> hash_persistence_names().contains(self@.hash_persistence.implementation@),
            r matches Ok(p) ==> persists_to(p, output_path@),
    {
        proof {
            assert(hash_persistence_names()[0] == "json"@);
            assert(hash_persistence_names()[1] == "streaming_json"@);
            assert(hash_persistence_names()[2] == "memory"@);
        }
        match HashPersistenceFactory::new().create(&self.config.hash_persistence, output_path) {
            Ok(s) => Ok(s),
            Err(e) => Err(injection_error("HashPersistence", e)),
        }
    }

    /// All components, or the first error met in declaration order; the
    /// persistence writes to `output_path`.
    pub fn resolve_all_dependencies(&self, output_path: &str) -> (r: Result<
        DependencyBundle,
        ProcessingError,
    >)
        ensures
            r is Ok <==> resolvable(self@),
            r matches Ok(b) ==> persists_to(b.hash_persistence, output_path@),
    {
        let image_loader = match self.create_image_loader() {
            Ok(v) => v,
            Err(e) => return Err(e),
        };
        let perceptual_hash = match self.create_perceptual_hash() {
            Ok(v) => v,
            Err(e) => return Err(e),
        };
        let storage = match self.create_storage() {
            Ok(v) => v,
            Err(e) => return Err(e),
        };
        let processing_config = match self.create_processing_config() {
            Ok(v) => v,
            Err(e) => return Err(e),
        };
        let progress_reporter = match self.create_progress_reporter() {
            Ok(v) => v,
            Err(e) => return Err(e),
        };
        let hash_persistence = match self.create_hash_persistence(output_path) {
            Ok(v) => v,
            Err(e) => return Err(e),
        };
        Ok(
            DependencyBundle {
                image_loader,
                perceptual_hash,
                storage,
                processing_config,
                progress_reporter,
                hash_persistence,
            },
        )
    }
}

impl Default for DependencyContainer {
    fn default() -> (r: Self)
        ensures
            is_default_config(r@),
    {
        DependencyContainer::with_default_config()
    }
}

/// Whether `name` names one of the six components.
pub open spec fn component_name(name: Seq<char>) -> bool {
    ||| name == "image_loader"@
    ||| name == "perceptual_hash"@
    ||| name == "storage"@
    ||| name == "processing_config"@
    ||| name == "progress_reporter"@
    ||| name == "hash_persistence"@
}

/// Builds a container one component at a time, from a preset.
pub struct DependencyContainerBuilder {
    config: DependencyConfig,
}

impl View for DependencyContainerBuilder {
    type V = DependencyConfig;

    /// The configuration built so far.
    closed spec fn view(&self) -> DependencyConfig {
        self.config
    }
}

impl DependencyContainerBuilder {
    pub fn new() -> (r: Self)
        ensures
            is_default_config(r@),
    {
        DependencyContainerBuilder { config: DependencyConfig::default_config() }
    }

    pub fn high_performance() -> (r: Self)
        ensures
            is_high_performance_config(r@),
    {
        DependencyContainerBuilder { config: DependencyConfig::high_performance() }
    }

    pub fn for_testing() -> (r: Self)
        ensures
            is_testing_config(r@),
    {
        DependencyContainerBuilder { config: DependencyConfig::for_testing() }
    }

    pub fn with_image_loader(self, implementation: &str, parameters: ComponentParameters) -> (r: Self)
        ensures
            component_is(r@.image_loader, implementation@, parameters),
            r@ == (DependencyConfig { image_loader: r@.image_loader, ..self@ }),
    {
        let mut b = self;
        b.config.image_loader = ComponentConfig::new(implementation, parameters);
        b
    }

    pub fn with_perceptual_hash(self, implementation: &str, parameters: ComponentParameters) -> (r: Self)
        ensures
            component_is(r@.perceptual_hash, implementation@, parameters),
            r@ == (DependencyConfig { perceptual_hash: r@.perceptual_hash, ..self@ }),
    {
        let mut b = self;
        b.config.perceptual_hash = ComponentConfig::new(implementation, parameters);
        b
    }

    pub fn with_storage(self, implementation: &str, parameters: ComponentParameters) -> (r: Self)
        ensures
            component_is(r@.storage, implementation@, parameters),
            r@ == (DependencyConfig { storage: r@.storage, ..self@ }),
    {
        let mut b = self;
        b.config.storage = ComponentConfig::new(implementation, parameters);
        b
    }

    pub fn with_processing_config(self, implementation: &str, parameters: ComponentParameters) -> (r: Self)
        ensures
            component_is(r@.processing_config, implementation@, parameters),
            r@ == (DependencyConfig { processing_config: r@.processing_config, ..self@ }),
    {
        let mut b = self;
        b.config.processing_config = ComponentConfig::new(implementation, parameters);
        b
    }

    pub fn with_progress_reporter(self, implementation: &str, parameters: ComponentParameters) -> (r: Self)
        ensures
            component_is(r@.progress_reporter, implementation@, parameters),
            r@ == (DependencyConfig { progress_reporter: r@.progress_reporter, ..self@ }),
    {
        let mut b = self;
        b.config.progress_reporter = ComponentConfig::new(implementation, parameters);
        b
    }

    pub fn with_hash_persistence(self, implementation: &str, parameters: ComponentParameters) -> (r: Self)
        ensures
            component_is(r@.hash_persistence, implementation@, parameters),
            r@ == (DependencyConfig { hash_persistence: r@.hash_persistence, ..self@ }),
    {
        let mut b = self;
        b.config.hash_persistence = ComponentConfig::new(implementation, parameters);
        b
    }

    pub fn build(self) -> (r: DependencyContainer)
        ensures
            r@ == self@,
    {
        DependencyContainer::new(self.config)
    }
}

impl Default for DependencyContainerBuilder {
    fn default() -> Self {
        DependencyContainerBuilder::new()
    }
}

/// Whether every component of `c` can be created: the condition under which
/// `resolve_all_dependencies` succeeds.
pub open spec fn resolvable(c: DependencyConfig) -> bool {
    &&& c.image_loader.implementation@ == "standard"@
    &&& perceptual_hash_names().contains(c.perceptual_hash.implementation@)
    &&& (c.perceptual_hash.implementation@ == "difference"@ || 1 <= (crate::factories::param_or(
        c.perceptual_hash.parameters.size,
        8,
    ) as u32) <= 64)
    &&& c.storage.implementation@ == "local"@
    &&& c.processing_config.implementation@ == "default"@
    &&& progress_reporter_names().contains(c.progress_reporter.implementation@)
    &&& hash_persistence_names().contains(c.hash_persistence.implementation@)
}

/// Each preset configuration passes validation, and each of its components
/// can be created.
pub proof fn lemma_presets_valid(c: DependencyConfig)
    requires
        is_default_config(c) || is_high_performance_config(c) || is_testing_config(c),
    ensures
        first_invalid(c) is None,
        resolvable(c),
{
    assert(image_loader_names()[0] == "standard"@);
    assert(perceptual_hash_names()[0] == "dct"@);
    assert(perceptual_hash_names()[1] == "average"@);
    assert(storage_names()[0] == "local"@);
    assert(processing_config_names()[0] == "default"@);
    assert(progress_reporter_names()[0] == "console"@);
    assert(progress_reporter_names()[1] == "noop"@);
    assert(hash_persistence_names()[1] == "streaming_json"@);
    assert(hash_persistence_names()[2] == "memory"@);
    assert((8u64 as u32) == 8) by (bit_vector);
    assert((32u64 as u32) == 32) by (bit_vector);
}

} // verus!
