use vstd::prelude::*;

verus! {

/// What was learnt about a file while hashing it.
#[derive(Debug)]
pub struct ProcessingMetadata {
    pub file_size: u64,
    pub processing_time_ms: u64,
    pub image_dimensions: (u32, u32),
    pub was_resized: bool,
}

impl Clone for ProcessingMetadata {
    fn clone(&self) -> (r: Self)
        ensures
            r == *self,
    {
        ProcessingMetadata {
            file_size: self.file_size,
            processing_time_ms: self.processing_time_ms,
            image_dimensions: (self.image_dimensions.0, self.image_dimensions.1),
            was_resized: self.was_resized,
        }
    }
}

/// The outcome of processing one file.
#[derive(Debug)]
pub enum ProcessingOutcome {
    Success {
        file_path: String,
        hash: String,
        algorithm: String,
        hash_bits: u64,
        metadata: ProcessingMetadata,
    },
    Error { file_path: String, error: String },
}

impl ProcessingOutcome {
    /// The path of the file the outcome is about.
    pub fn file_path(&self) -> (r: &String)
        ensures
            *r == match self {
                ProcessingOutcome::Success { file_path, .. } => *file_path,
                ProcessingOutcome::Error { file_path, .. } => *file_path,
            },
    {
        match self {
            ProcessingOutcome::Success { file_path, .. } => file_path,
            ProcessingOutcome::Error { file_path, .. } => file_path,
        }
    }

    pub fn is_success(&self) -> (r: bool)
        ensures
            r == self is Success,
    {
        match self {
            ProcessingOutcome::Success { .. } => true,
            ProcessingOutcome::Error { .. } => false,
        }
    }
}

} // verus!
