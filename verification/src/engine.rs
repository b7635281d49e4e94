use vstd::prelude::*;
use std::sync::Arc;
use crate::di_container::is_configuration_error;
use crate::error::ProcessingError;

verus! {

/// Checks the settings a processing run needs: at least one concurrent task
/// and a batch size of at least one.
pub fn check_engine_settings(max_concurrent_tasks: usize, batch_size: usize) -> (r: Result<
    (),
    ProcessingError,
>)
    ensures
        max_concurrent_tasks == 0 ==> (r matches Err(e) && is_configuration_error(
            e,
            "並列タスク数は1以上である必要があります"@,
        )),
        max_concurrent_tasks > 0 && batch_size == 0 ==> (r matches Err(e) && is_configuration_error(
            e,
            "バッチサイズは1以上である必要があります"@,
        )),
        max_concurrent_tasks > 0 && batch_size > 0 ==> r is Ok,
{
    if max_concurrent_tasks == 0 {
        return Err(ProcessingError::configuration("並列タスク数は1以上である必要があります"));
    }
    if batch_size == 0 {
        return Err(ProcessingError::configuration("バッチサイズは1以上である必要があります"));
    }
    Ok(())
}

/// A processing engine holding its six components, shared so that parallel
/// workers can use them.
pub struct ProcessingEngine<L, H, S, C, R, P> {
    loader: Arc<L>,
    hasher: Arc<H>,
    storage: Arc<S>,
    config: Arc<C>,
    reporter: Arc<R>,
    persistence: Arc<P>,
}

impl<L, H, S, C, R, P> ProcessingEngine<L, H, S, C, R, P> {
    /// The settings held.
    pub closed spec fn config_spec(&self) -> C {
        *self.config
    }

    /// The progress reporter held.
    pub closed spec fn reporter_spec(&self) -> R {
        *self.reporter
    }

    /// The persistence backend held.
    pub closed spec fn persistence_spec(&self) -> P {
        *self.persistence
    }

    /// The storage held.
    pub closed spec fn storage_spec(&self) -> S {
        *self.storage
    }

    pub fn new(loader: L, hasher: H, storage: S, config: C, reporter: R, persistence: P) -> (r: Self)
        ensures
            r.loader_spec() == loader,
            r.hasher_spec() == hasher,
            r.storage_spec() == storage,
            r.config_spec() == config,
            r.reporter_spec() == reporter,
            r.persistence_spec() == persistence,
    {
        ProcessingEngine {
            loader: Arc::new(loader),
            hasher: Arc::new(hasher),
            storage: Arc::new(storage),
            config: Arc::new(config),
            reporter: Arc::new(reporter),
            persistence: Arc::new(persistence),
        }
    }

    pub fn config(&self) -> (r: &C)
        ensures
            *r == self.config_spec(),
    {
        &*self.config
    }

    pub fn reporter(&self) -> (r: &R)
        ensures
            *r == self.reporter_spec(),
    {
        &*self.reporter
    }

    pub fn persistence(&self) -> (r: &P)
        ensures
            *r == self.persistence_spec(),
    {
        &*self.persistence
    }

    /// The image loader held.
    pub closed spec fn loader_spec(&self) -> L {
        *self.loader
    }

    /// The hasher held.
    pub closed spec fn hasher_spec(&self) -> H {
        *self.hasher
    }

    /// A pipeline sharing this engine's loader and hasher.
    pub fn pipeline(&self) -> (r: ProcessingPipeline<L, H>)
        ensures
            r.loader_spec() == self.loader_spec(),
            r.hasher_spec() == self.hasher_spec(),
    {
        ProcessingPipeline::new(Arc::clone(&self.loader), Arc::clone(&self.hasher))
    }
}

/// The stages that load and hash images, sharing loader and hasher.
pub struct ProcessingPipeline<L, H> {
    loader: Arc<L>,
    hasher: Arc<H>,
}

impl<L, H> ProcessingPipeline<L, H> {
    pub fn new(loader: Arc<L>, hasher: Arc<H>) -> (r: Self)
        ensures
            r.loader_spec() == *loader,
            r.hasher_spec() == *hasher,
    {
        ProcessingPipeline { loader, hasher }
    }

    pub closed spec fn loader_spec(&self) -> L {
        *self.loader
    }

    pub closed spec fn hasher_spec(&self) -> H {
        *self.hasher
    }

    pub fn loader(&self) -> (r: &L)
        ensures
            *r == self.loader_spec(),
    {
        &*self.loader
    }

    pub fn hasher(&self) -> (r: &H)
        ensures
            *r == self.hasher_spec(),
    {
        &*self.hasher
    }
}

} // verus!
