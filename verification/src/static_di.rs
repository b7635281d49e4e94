use vstd::prelude::*;
use core::marker::PhantomData;
use crate::engine::ProcessingEngine;
use crate::settings::ProcessingConfig;

verus! {

/// The engine a static provider's components make up.
pub type StaticProcessingEngine<P> = ProcessingEngine<
    <P as StaticDependencyProvider>::ImageLoader,
    <P as StaticDependencyProvider>::PerceptualHash,
    <P as StaticDependencyProvider>::Storage,
    <P as StaticDependencyProvider>::ProcessingConfig,
    <P as StaticDependencyProvider>::ProgressReporter,
    <P as StaticDependencyProvider>::HashPersistence,
>;

/// Supplies, at the type level, the six components of a processing engine.
pub trait StaticDependencyProvider: Sized {
    type ImageLoader;
    type PerceptualHash;
    type Storage;
    type ProcessingConfig: ProcessingConfig;
    type ProgressReporter;
    type HashPersistence;

    /// Whether the components fit together.
    const DEPENDENCIES_VALID: bool = true;

    /// What the provider is for.
    const DEPENDENCY_DESCRIPTION: &'static str = "Static dependency provider";

    /// Whether `l` is an image loader this provider creates; any, unless the provider says more.
    open spec fn creates_image_loader(l: Self::ImageLoader) -> bool {
        true
    }

    /// Whether `h` is a hasher this provider creates; any, unless the provider says more.
    open spec fn creates_perceptual_hash(h: Self::PerceptualHash) -> bool {
        true
    }

    /// Whether `s` is a storage this provider creates; any, unless the provider says more.
    open spec fn creates_storage(s: Self::Storage) -> bool {
        true
    }

    /// Whether `c` are processing settings this provider creates; any, unless the provider says more.
    open spec fn creates_processing_config(c: Self::ProcessingConfig) -> bool {
        true
    }

    /// Whether `r` is a progress reporter this provider creates; any, unless the provider says more.
    open spec fn creates_progress_reporter(r: Self::ProgressReporter) -> bool {
        true
    }

    /// Whether `p` is a persistence this provider creates for `output_path`; any, unless the provider says more.
    open spec fn creates_hash_persistence(p: Self::HashPersistence, output_path: Seq<char>) -> bool {
        true
    }

    fn create_image_loader() -> (r: Self::ImageLoader)
        ensures
            Self::creates_image_loader(r),
    ;

    fn create_perceptual_hash() -> (r: Self::PerceptualHash)
        ensures
            Self::creates_perceptual_hash(r),
    ;

    fn create_storage() -> (r: Self::Storage)
        ensures
            Self::creates_storage(r),
    ;

    fn create_processing_config() -> (r: Self::ProcessingConfig)
        ensures
            Self::creates_processing_config(r),
    ;

    fn create_progress_reporter() -> (r: Self::ProgressReporter)
        ensures
            Self::creates_progress_reporter(r),
    ;

    fn create_hash_persistence(output_path: &str) -> (r: Self::HashPersistence)
        ensures
            Self::creates_hash_persistence(r, output_path@),
    ;

    /// All six components at once.
    fn create_all_dependencies(output_path: &str) -> (r: StaticDependencyBundle<Self>)
        ensures
            Self::creates_image_loader(r.image_loader),
            Self::creates_perceptual_hash(r.perceptual_hash),
            Self::creates_storage(r.storage),
            Self::creates_processing_config(r.processing_config),
            Self::creates_progress_reporter(r.progress_reporter),
            Self::creates_hash_persistence(r.hash_persistence, output_path@),
    {
        StaticDependencyBundle {
            image_loader: Self::create_image_loader(),
            perceptual_hash: Self::create_perceptual_hash(),
            storage: Self::create_storage(),
            processing_config: Self::create_processing_config(),
            progress_reporter: Self::create_progress_reporter(),
            hash_persistence: Self::create_hash_persistence(output_path),
        }
    }
}

/// The six components a provider created.
pub struct StaticDependencyBundle<P: StaticDependencyProvider> {
    pub image_loader: P::ImageLoader,
    pub perceptual_hash: P::PerceptualHash,
    pub storage: P::Storage,
    pub processing_config: P::ProcessingConfig,
    pub progress_reporter: P::ProgressReporter,
    pub hash_persistence: P::HashPersistence,
}

impl<P: StaticDependencyProvider> StaticDependencyBundle<P> {
    /// Whether each component is one the provider creates, the persistence
    /// for `output_path`.
    pub open spec fn created_by_provider(&self, output_path: Seq<char>) -> bool {
        &&& P::creates_image_loader(self.image_loader)
        &&& P::creates_perceptual_hash(self.perceptual_hash)
        &&& P::creates_storage(self.storage)
        &&& P::creates_processing_config(self.processing_config)
        &&& P::creates_progress_reporter(self.progress_reporter)
        &&& P::creates_hash_persistence(self.hash_persistence, output_path)
    }

    /// An engine holding these components.
    pub fn into_processing_engine(self) -> (r: ProcessingEngine<
        P::ImageLoader,
        P::PerceptualHash,
        P::Storage,
        P::ProcessingConfig,
        P::ProgressReporter,
        P::HashPersistence,
    >)
        ensures
            r.loader_spec() == self.image_loader,
            r.hasher_spec() == self.perceptual_hash,
            r.storage_spec() == self.storage,
            r.config_spec() == self.processing_config,
            r.reporter_spec() == self.progress_reporter,
            r.persistence_spec() == self.hash_persistence,
    {
        ProcessingEngine::new(
            self.image_loader,
            self.perceptual_hash,
            self.storage,
            self.processing_config,
            self.progress_reporter,
            self.hash_persistence,
        )
    }
}

/// A container whose components are fixed by its provider type; it holds
/// no data.
pub struct StaticDIContainer<P: StaticDependencyProvider> {
    _provider: PhantomData<P>,
}

impl<P: StaticDependencyProvider> StaticDIContainer<P> {
    pub fn new() -> Self {
        StaticDIContainer { _provider: PhantomData }
    }

    /// Whether the provider's components fit together.
    pub fn validate() -> (r: bool)
        ensures
            r == P::DEPENDENCIES_VALID,
    {
        P::DEPENDENCIES_VALID
    }

    /// The provider's description.
    pub fn description() -> (r: &'static str)
        ensures
            r == P::DEPENDENCY_DESCRIPTION,
    {
        P::DEPENDENCY_DESCRIPTION
    }

    /// An engine built from a fresh set of the provider's components, its
    /// persistence for `output_path`.
    pub fn create_processing_engine(&self, output_path: &str) -> (r: StaticProcessingEngine<P>)
        ensures
            engine_created_by::<P>(r, output_path@),
    {
        let bundle = P::create_all_dependencies(output_path);
        bundle.into_processing_engine()
    }

    pub fn create_dependency_bundle(&self, output_path: &str) -> (r: StaticDependencyBundle<P>)
        ensures
            r.created_by_provider(output_path@),
    {
        P::create_all_dependencies(output_path)
    }

    pub fn create_image_loader(&self) -> (r: P::ImageLoader)
        ensures
            P::creates_image_loader(r),
    {
        P::create_image_loader()
    }

    pub fn create_perceptual_hash(&self) -> (r: P::PerceptualHash)
        ensures
            P::creates_perceptual_hash(r),
    {
        P::create_perceptual_hash()
    }

    pub fn create_storage(&self) -> (r: P::Storage)
        ensures
            P::creates_storage(r),
    {
        P::create_storage()
    }

    pub fn create_processing_config(&self) -> (r: P::ProcessingConfig)
        ensures
            P::creates_processing_config(r),
    {
        P::create_processing_config()
    }

    pub fn create_progress_reporter(&self) -> (r: P::ProgressReporter)
        ensures
            P::creates_progress_reporter(r),
    {
        P::create_progress_reporter()
    }

    pub fn create_hash_persistence(&self, output_path: &str) -> (r: P::HashPersistence)
        ensures
            P::creates_hash_persistence(r, output_path@),
    {
        P::create_hash_persistence(output_path)
    }
}

/// Whether each component an engine holds is one the provider creates, the
/// persistence for `output_path`.
pub open spec fn engine_created_by<P: StaticDependencyProvider>(
    e: StaticProcessingEngine<P>,
    output_path: Seq<char>,
) -> bool {
    &&& P::creates_image_loader(e.loader_spec())
    &&& P::creates_perceptual_hash(e.hasher_spec())
    &&& P::creates_storage(e.storage_spec())
    &&& P::creates_processing_config(e.config_spec())
    &&& P::creates_progress_reporter(e.reporter_spec())
    &&& P::creates_hash_persistence(e.persistence_spec(), output_path)
}

impl<P: StaticDependencyProvider> Default for StaticDIContainer<P> {
    fn default() -> Self {
        Self::new()
    }
}

impl<P: StaticDependencyProvider> Clone for StaticDIContainer<P> {
    fn clone(&self) -> Self {
        Self::new()
    }
}

} // verus!
