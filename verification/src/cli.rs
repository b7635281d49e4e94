use vstd::prelude::*;
use crate::process::ProcessAction;

verus! {

/// The command line of the tool: one subcommand with its arguments.
pub struct Cli {
    pub command: Commands,
}

/// The subcommands, with paths held as text.
pub enum Commands {
    /// Hash the images under a directory into a hash database.
    Scan {
        target_directory: String,
        output: String,
        threads: Option<usize>,
        force: bool,
        algorithm: String,
        hash_size: u32,
        config_preset: Option<String>,
    },
    /// Group the entries of a hash database into duplicates.
    FindDups { hash_database: String, output: String, threshold: u32 },
    /// Keep the duplicates at least `min_distance` from their group's first file.
    FilterDuplicates { input_json: String, min_distance: u32 },
    /// Move or delete the duplicates of a duplicate list.
    Process {
        duplicate_list: String,
        action: ProcessAction,
        dest: String,
        no_confirm: bool,
        scan_database: Option<String>,
    },
}

} // verus!
