use crate::text::{names_of, quoted_list, render_quoted_list};
use vstd::prelude::*;
use vstd::string::*;

verus! {

/// Why a request could not be carried out. Every error ends the request.
#[derive(Clone, Debug)]
pub enum ShoalError {
    /// No stack of that name is registered.
    StackNotFound { stack: String },
    /// The stack has no override of that name.
    OverrideNotFound { stack: String, name: String },
    /// The stack lists services that the registry lacks; all of them, in
    /// the order of the stack's member list.
    MissingServices { stack: String, missing: Vec<String> },
    /// A service reached through dependencies is not registered.
    MissingDependency { service: String },
    /// "down" found no manifest for the stack.
    NotRunning { stack: String, path: String },
    /// A path could not be found or a file could not be written.
    Io { message: String },
    /// The orchestration tool could not be run or exited with failure.
    Process { message: String },
}

impl ShoalError {
    /// The text that reports the error.
    pub open spec fn message_of(&self) -> Seq<char> {
        match self {
            ShoalError::StackNotFound { stack } => "Failed to find a stack with the name '"@
                + stack@ + "'."@,
            ShoalError::OverrideNotFound { stack, name } => "Failed to find an override for "@
                + stack@ + " with the name '"@ + name@ + "'."@,
            ShoalError::MissingServices { stack, missing } => "Stack '"@ + stack@
                + "' references non-existent services: "@ + quoted_list(names_of(missing@)),
            ShoalError::MissingDependency { service } => "Service '"@ + service@
                + "' is required but not registered."@,
            ShoalError::NotRunning { stack, path } => "Stack "@ + stack@
                + " is not running; compose file missing at \""@ + path@ + "\""@,
            ShoalError::Io { message } => message@,
            ShoalError::Process { message } => message@,
        }
    }

    pub fn message(&self) -> (r: String)
        ensures
            r@ == self.message_of(),
    {
        let mut r = String::new();
        match self {
            ShoalError::StackNotFound { stack } => {
                r.append("Failed to find a stack with the name '");
                r.append(stack.as_str());
                r.append("'.");
            },
            ShoalError::OverrideNotFound { stack, name } => {
                r.append("Failed to find an override for ");
                r.append(stack.as_str());
                r.append(" with the name '");
                r.append(name.as_str());
                r.append("'.");
            },
            ShoalError::MissingServices { stack, missing } => {
                r.append("Stack '");
                r.append(stack.as_str());
                r.append("' references non-existent services: ");
                let list = render_quoted_list(missing);
                r.append(list.as_str());
            },
            ShoalError::MissingDependency { service } => {
                r.append("Service '");
                r.append(service.as_str());
                r.append("' is required but not registered.");
            },
            ShoalError::NotRunning { stack, path } => {
                r.append("Stack ");
                r.append(stack.as_str());
                r.append(" is not running; compose file missing at \"");
                r.append(path.as_str());
                r.append("\"");
            },
            ShoalError::Io { message } => {
                r.append(message.as_str());
            },
            ShoalError::Process { message } => {
                r.append(message.as_str());
            },
        }
        proof {
            assert(Seq::<char>::empty() + self.message_of() =~= self.message_of());
        }
        r
    }
}

} // verus!
