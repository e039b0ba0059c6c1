use crate::text::names_of;
use crate::error::ShoalError;
use crate::traits::CommandExecutor;
use vstd::prelude::*;

verus! {

/// The arguments of "docker" that start a stack: detached, rebuilding what
/// can be built, and waiting until the services are ready.
pub open spec fn up_args_of(project: Seq<char>, path: Seq<char>) -> Seq<Seq<char>> {
    seq![
        "compose"@,
        "--project-name"@,
        project,
        "-f"@,
        path,
        "up"@,
        "-d"@,
        "--build"@,
        "--wait"@,
    ]
}

/// The arguments of "docker" that tear a stack down.
pub open spec fn down_args_of(project: Seq<char>, path: Seq<char>) -> Seq<Seq<char>> {
    seq!["compose"@, "--project-name"@, project, "-f"@, path, "down"@]
}

/// The outcome of running the orchestration tool: its failure becomes a
/// process error that carries its message.
pub fn process_outcome(outcome: Result<(), String>) -> (r: Result<(), ShoalError>)
    ensures
        match outcome {
            Ok(()) => r is Ok,
            Err(m) => r matches Err(ShoalError::Process { message }) && message@ == m@,
        },
{
    match outcome {
        Ok(()) => Ok(()),
        Err(message) => Err(ShoalError::Process { message }),
    }
}

/// Drives the orchestration tool for one stack and its manifest.
pub struct ComposeManager<'a, E: CommandExecutor> {
    compose_file_path: String,
    project_name: String,
    command_executor: &'a E,
}

impl<'a, E: CommandExecutor> ComposeManager<'a, E> {
    pub closed spec fn path(&self) -> Seq<char> {
        self.compose_file_path@
    }

    pub closed spec fn project(&self) -> Seq<char> {
        self.project_name@
    }

    pub fn new(compose_path: String, project_name: String, command_executor: &'a E) -> (r: Self)
        ensures
            r.path() == compose_path@,
            r.project() == project_name@,
    {
        ComposeManager { compose_file_path: compose_path, project_name, command_executor }
    }

    fn args_from(&self, words: &[&str]) -> (r: Vec<String>)
        requires
            words@.len() >= 3,
        ensures
            names_of(r@) == seq![words@[0]@, words@[1]@, self.project(), words@[2]@, self.path()]
                + words@.subrange(3, words@.len() as int).map_values(|w: &str| w@),
    {
        let mut args: Vec<String> = Vec::new();
        args.push(words[0].to_owned());
        args.push(words[1].to_owned());
        args.push(self.project_name.clone());
        args.push(words[2].to_owned());
        args.push(self.compose_file_path.clone());
        let mut i: usize = 3;
        while i < words.len()
            invariant
                3 <= i <= words@.len(),
                names_of(args@) == seq![words@[0]@, words@[1]@, self.project(), words@[2]@, self.path()]
                    + words@.subrange(3, i as int).map_values(|w: &str| w@),
            decreases words@.len() - i,
        {
            let ghost before = args@;
            args.push(words[i].to_owned());
            proof {
                assert(names_of(args@) =~= names_of(before).push(words@[i as int]@));
                assert(words@.subrange(3, i as int + 1).map_values(|w: &str| w@) =~= words@.subrange(
                    3,
                    i as int,
                ).map_values(|w: &str| w@).push(words@[i as int]@));
            }
            i = i + 1;
        }
        args
    }

    /// The arguments that `up` hands to "docker".
    pub fn up_args(&self) -> (r: Vec<String>)
        ensures
            names_of(r@) == up_args_of(self.project(), self.path()),
    {
        let words: [&str; 7] = ["compose", "--project-name", "-f", "up", "-d", "--build", "--wait"];
        let r = self.args_from(&words);
        proof {
            assert(words@.subrange(3, 7).map_values(|w: &str| w@) =~= seq![
                "up"@,
                "-d"@,
                "--build"@,
                "--wait"@,
            ]);
            assert(names_of(r@) =~= up_args_of(self.project(), self.path()));
        }
        r
    }

    /// The arguments that `down` hands to "docker".
    pub fn down_args(&self) -> (r: Vec<String>)
        ensures
            names_of(r@) == down_args_of(self.project(), self.path()),
    {
        let words: [&str; 4] = ["compose", "--project-name", "-f", "down"];
        let r = self.args_from(&words);
        proof {
            assert(words@.subrange(3, 4).map_values(|w: &str| w@) =~= seq!["down"@]);
            assert(names_of(r@) =~= down_args_of(self.project(), self.path()));
        }
        r
    }

    /// Starts the stack and waits until it is ready; fails with the tool's
    /// message when it exits with failure.
    pub fn up(&self) -> (r: Result<(), ShoalError>)
        ensures
            r matches Err(e) ==> e is Process,
    {
        let args = self.up_args();
        process_outcome(self.command_executor.execute("docker", &args))
    }

    /// Tears the stack down; fails with the tool's message when it exits with
    /// failure.
    pub fn down(&self) -> (r: Result<(), ShoalError>)
        ensures
            r matches Err(e) ==> e is Process,
    {
        let args = self.down_args();
        process_outcome(self.command_executor.execute("docker", &args))
    }
}

} // verus!
