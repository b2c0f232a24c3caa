//! Hooks are shell commands of the configuration. The two build hooks run
//! to their end and must succeed; the run hook is started and left alone.

use vstd::prelude::*;
use vstd::string::StringExecFns;

verus! {

/// A hook did not succeed.
#[derive(Debug)]
pub enum HookError {
    /// The command ended with a non-zero status.
    Failed { command: String },
}

/// Judges the outcome of a hook that was waited for: any failure is fatal
/// and names the command.
pub fn check_hook_status(success: bool, command: &String) -> (outcome: Result<(), HookError>)
    ensures
        success ==> outcome is Ok,
        !success ==> (outcome matches Err(HookError::Failed { command: named }) && named@
            == command@),
{
    if success {
        Ok(())
    } else {
        Err(HookError::Failed { command: command.clone() })
    }
}

impl HookError {
    /// The text of the message for this error.
    pub open spec fn message_text(&self) -> Seq<char> {
        match self {
            HookError::Failed { command } => "hook failed: "@ + command@,
        }
    }

    /// A message for the user; it names the command.
    pub fn message(&self) -> (text: String)
        ensures
            text@ == self.message_text(),
    {
        match self {
            HookError::Failed { command } => String::from_str("hook failed: ").concat(
                command.as_str(),
            ),
        }
    }
}

} // verus!
