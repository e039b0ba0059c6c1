use crate::types::DockerComposeFile;
use vstd::prelude::*;

verus! {

/// Runs external programs.
pub trait CommandExecutor {
    /// Runs `program` with `args` and waits for it to end; `Ok` when it
    /// exited with success, else a message that holds its exit code.
    fn execute(&self, program: &str, args: &Vec<String>) -> Result<(), String>;
}

/// Reads and writes files; paths are '/'-separated text.
pub trait FileSystem {
    fn read_file(&self, path: &str) -> Result<String, String>;

    fn write_file(&self, path: &str, content: &str) -> Result<(), String>;

    /// The paths of the entries of a directory.
    fn read_dir(&self, path: &str) -> Result<Vec<String>, String>;

    fn create_dir_all(&self, path: &str) -> Result<(), String>;

    fn path_exists(&self, path: &str) -> bool;
}

/// Where configuration and manifests live.
pub trait PathProvider {
    fn current_dir(&self) -> Result<String, String>;

    fn home_dir(&self) -> Result<String, String>;

    fn data_local_dir(&self) -> Result<String, String>;
}

/// Turns a manifest into the text that the orchestration tool reads.
pub trait ManifestRenderer {
    fn render(&self, manifest: &DockerComposeFile) -> Result<String, String>;
}

} // verus!
