pub mod closure;
pub mod compose;
pub mod config;
pub mod error;
pub mod name_map;
pub mod orchestrator;
pub mod overrides;
pub mod resolver;
pub mod stack;
pub mod synth;
pub mod text;
pub mod traits;
pub mod types;

pub use closure::resolve_dependencies;
pub use compose::ComposeFileManager;
pub use config::{collect_by_name, is_yaml_file, read_yaml_files_in_directory};
pub use error::ShoalError;
pub use name_map::NameMap;
pub use orchestrator::ComposeManager;
pub use overrides::{apply_overrides, container_port, merge_hashmaps};
pub use resolver::extract_override;
pub use stack::{check_running, StackManager};
pub use synth::{
    build_compose_file, build_docker_service, synthesize, validate_stack_members, Deployment,
};
pub use traits::{CommandExecutor, FileSystem, ManifestRenderer, PathProvider};
pub use types::{
    DockerComposeFile, DockerNetwork, DockerService, LocationType, Override, Service,
    ServiceLocation, Stack, StackOverride,
};
