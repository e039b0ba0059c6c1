use crate::error::ShoalError;
use crate::name_map::NameMap;
use crate::synth::build_compose_file;
use crate::traits::{FileSystem, ManifestRenderer, PathProvider};
use crate::types::DockerService;
use vstd::prelude::*;
use vstd::string::*;

verus! {

/// `seg` appended to the path `base`, with one '/' between them.
pub open spec fn joined(base: Seq<char>, seg: Seq<char>) -> Seq<char> {
    if base.len() == 0 || base.last() == '/' {
        base + seg
    } else {
        base + seq!['/'] + seg
    }
}

/// The directory of a stack's manifest: "{data}/shoal/stacks/{stack}".
pub open spec fn stack_dir_in(data_dir: Seq<char>, stack: Seq<char>) -> Seq<char> {
    joined(joined(joined(data_dir, "shoal"@), "stacks"@), stack)
}

/// The manifest of a stack: "{stack dir}/docker-compose.generated.yml".
pub open spec fn manifest_path_in(data_dir: Seq<char>, stack: Seq<char>) -> Seq<char> {
    joined(stack_dir_in(data_dir, stack), "docker-compose.generated.yml"@)
}

/// Joins two path pieces with one '/'.
pub fn join_path(base: &str, seg: &str) -> (r: String)
    ensures
        r@ == joined(base@, seg@),
{
    let n = base.unicode_len();
    let mut r = base.to_owned();
    if n == 0 || base.get_char(n - 1) == '/' {
        r.append(seg);
    } else {
        r.append("/");
        proof {
            reveal_strlit("/");
        }
        r.append(seg);
    }
    r
}

/// The manifest directory of `stack_name` under the local data directory.
pub fn stack_dir_under(data_dir: &str, stack_name: &str) -> (r: String)
    ensures
        r@ == stack_dir_in(data_dir@, stack_name@),
{
    let app = join_path(data_dir, "shoal");
    let stacks = join_path(app.as_str(), "stacks");
    join_path(stacks.as_str(), stack_name)
}

/// The manifest path of `stack_name` under the local data directory.
pub fn manifest_path_under(data_dir: &str, stack_name: &str) -> (r: String)
    ensures
        r@ == manifest_path_in(data_dir@, stack_name@),
{
    let dir = stack_dir_under(data_dir, stack_name);
    join_path(dir.as_str(), "docker-compose.generated.yml")
}

/// Finds, creates and writes the manifests of stacks.
pub struct ComposeFileManager<FS: FileSystem, PP: PathProvider, R: ManifestRenderer> {
    file_system: FS,
    path_provider: PP,
    renderer: R,
}

impl<FS: FileSystem, PP: PathProvider, R: ManifestRenderer> ComposeFileManager<FS, PP, R> {
    pub fn new(file_system: FS, path_provider: PP, renderer: R) -> Self {
        ComposeFileManager { file_system, path_provider, renderer }
    }

    fn data_dir(&self) -> (r: Result<String, ShoalError>)
        ensures
            r matches Err(e) ==> e is Io,
    {
        match self.path_provider.data_local_dir() {
            Ok(dir) => Ok(dir),
            Err(message) => Err(ShoalError::Io { message }),
        }
    }

    fn stack_dir(&self, stack_name: &str) -> (r: Result<String, ShoalError>)
        ensures
            match r {
                Ok(p) => exists|d: Seq<char>| p@ == stack_dir_in(d, stack_name@),
                Err(e) => e is Io,
            },
    {
        let data = self.data_dir()?;
        Ok(stack_dir_under(data.as_str(), stack_name))
    }

    /// The manifest path of a stack, whether or not the file exists.
    pub fn compose_file_path(&self, stack_name: &str) -> (r: Result<String, ShoalError>)
        ensures
            match r {
                Ok(p) => exists|d: Seq<char>| p@ == manifest_path_in(d, stack_name@),
                Err(e) => e is Io,
            },
    {
        let data = self.data_dir()?;
        Ok(manifest_path_under(data.as_str(), stack_name))
    }

    /// The manifest path of a stack, after creating its directory when it is
    /// missing.
    pub fn ensure_compose_path(&self, stack_name: &str) -> (r: Result<String, ShoalError>)
        ensures
            match r {
                Ok(p) => exists|d: Seq<char>| p@ == manifest_path_in(d, stack_name@),
                Err(e) => e is Io,
            },
    {
        let data = self.data_dir()?;
        let dir = stack_dir_under(data.as_str(), stack_name);
        if !self.file_system.path_exists(dir.as_str()) {
            match self.file_system.create_dir_all(dir.as_str()) {
                Ok(()) => {},
                Err(message) => {
                    return Err(ShoalError::Io { message });
                },
            }
        }
        Ok(manifest_path_under(data.as_str(), stack_name))
    }

    pub fn file_exists(&self, path: &str) -> bool {
        self.file_system.path_exists(path)
    }

    /// Writes the manifest made of `docker_services` and the network
    /// `network_name` to `compose_path`, replacing what was there.
    pub fn generate_compose_file(
        &self,
        network_name: &str,
        docker_services: NameMap<DockerService>,
        compose_path: &str,
    ) -> (r: Result<(), ShoalError>)
        ensures
            r matches Err(e) ==> e is Io,
    {
        let compose = build_compose_file(network_name, docker_services);
        let text = match self.renderer.render(&compose) {
            Ok(t) => t,
            Err(message) => {
                return Err(ShoalError::Io { message });
            },
        };
        match self.file_system.write_file(compose_path, text.as_str()) {
            Ok(()) => Ok(()),
            Err(message) => Err(ShoalError::Io { message }),
        }
    }
}

} // verus!
