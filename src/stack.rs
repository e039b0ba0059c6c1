use crate::text::names_of;
use crate::compose::ComposeFileManager;
use crate::error::ShoalError;
use crate::name_map::NameMap;
use crate::orchestrator::ComposeManager;
use crate::synth::{
    is_synthesis_error, missing_members, synthesis_ok, synthesize, validate_stack_members,
};
use crate::traits::{CommandExecutor, FileSystem, ManifestRenderer, PathProvider};
use crate::types::{Service, Stack, StackOverride};
use vstd::prelude::*;

verus! {

/// Whether "down" may go on: only when the stack's manifest exists; else the
/// stack is not running.
pub fn check_running(stack_name: &str, compose_path: String, manifest_exists: bool) -> (r: Result<
    String,
    ShoalError,
>)
    ensures
        manifest_exists ==> (r matches Ok(p) && p@ == compose_path@),
        !manifest_exists ==> (r matches Err(ShoalError::NotRunning { stack, path }) && stack@
            == stack_name@ && path@ == compose_path@),
{
    if manifest_exists {
        Ok(compose_path)
    } else {
        Err(ShoalError::NotRunning { stack: stack_name.to_owned(), path: compose_path })
    }
}

/// Brings stacks up and down from the registries, through the given file
/// system, paths, manifest renderer and command executor.
pub struct StackManager<
    FS: FileSystem,
    PP: PathProvider,
    R: ManifestRenderer,
    E: CommandExecutor,
> {
    services: NameMap<Service>,
    stacks: NameMap<Stack>,
    overrides: NameMap<StackOverride>,
    compose_file_manager: ComposeFileManager<FS, PP, R>,
    command_executor: E,
}

impl<
    FS: FileSystem,
    PP: PathProvider,
    R: ManifestRenderer,
    E: CommandExecutor,
> StackManager<FS, PP, R, E> {
    pub closed spec fn service_registry(&self) -> Map<Seq<char>, Service> {
        self.services@
    }

    pub closed spec fn stack_registry(&self) -> Map<Seq<char>, Stack> {
        self.stacks@
    }

    pub closed spec fn override_registry(&self) -> Map<Seq<char>, StackOverride> {
        self.overrides@
    }

    pub fn new(
        services: NameMap<Service>,
        stacks: NameMap<Stack>,
        overrides: NameMap<StackOverride>,
        compose_file_manager: ComposeFileManager<FS, PP, R>,
        command_executor: E,
    ) -> (r: Self)
        ensures
            r.service_registry() == services@,
            r.stack_registry() == stacks@,
            r.override_registry() == overrides@,
    {
        StackManager { services, stacks, overrides, compose_file_manager, command_executor }
    }

    pub fn stacks(&self) -> (r: &NameMap<Stack>)
        ensures
            r@ == self.stack_registry(),
    {
        &self.stacks
    }

    /// Every member of `stack` must be registered; all that are not are
    /// reported together.
    pub fn validate_stack_services(&self, stack_name: &str, stack: &Stack) -> (r: Result<
        (),
        ShoalError,
    >)
        ensures
            r is Ok <==> missing_members(self.service_registry(), names_of(stack.services@)).len()
                == 0,
            match r {
                Ok(()) => true,
                Err(ShoalError::MissingServices { stack: s, missing }) => {
                    &&& s@ == stack_name@
                    &&& names_of(missing@) == missing_members(
                        self.service_registry(),
                        names_of(stack.services@),
                    )
                },
                Err(_) => false,
            },
    {
        validate_stack_members(&self.services, stack_name, stack)
    }

    /// Synthesizes the manifest of the stack that `identifier` selects,
    /// writes it, and starts the stack. When synthesis fails nothing is
    /// written or run and its error is returned; later failures are I/O or
    /// process errors.
    pub fn up(&self, identifier: &str) -> (r: Result<(), ShoalError>)
        ensures
            !synthesis_ok(
                self.service_registry(),
                self.stack_registry(),
                self.override_registry(),
                identifier@,
            ) ==> (r matches Err(e) && is_synthesis_error(
                self.service_registry(),
                self.stack_registry(),
                self.override_registry(),
                identifier@,
                e,
            )),
            synthesis_ok(
                self.service_registry(),
                self.stack_registry(),
                self.override_registry(),
                identifier@,
            ) ==> (r matches Err(e) ==> e is Io || e is Process),
    {
        let deployment = synthesize(&self.services, &self.stacks, &self.overrides, identifier)?;
        let compose_path = self.compose_file_manager.ensure_compose_path(
            deployment.stack_name.as_str(),
        )?;
        self.compose_file_manager.generate_compose_file(
            deployment.network_name.as_str(),
            deployment.services,
            compose_path.as_str(),
        )?;
        let compose_manager = ComposeManager::new(
            compose_path,
            deployment.stack_name,
            &self.command_executor,
        );
        compose_manager.up()
    }

    /// Tears the stack down. Without a manifest for it the stack is not
    /// running, and nothing is run.
    pub fn down(&self, stack_name: &str) -> (r: Result<(), ShoalError>)
        ensures
            r matches Err(e) ==> e is Io || e is Process || (e matches ShoalError::NotRunning {
                stack,
                ..
            } && stack@ == stack_name@),
    {
        let compose_path = self.compose_file_manager.compose_file_path(stack_name)?;
        let exists = self.compose_file_manager.file_exists(compose_path.as_str());
        let compose_path = check_running(stack_name, compose_path, exists)?;
        let compose_manager = ComposeManager::new(
            compose_path,
            stack_name.to_owned(),
            &self.command_executor,
        );
        compose_manager.down()
    }
}

} // verus!
