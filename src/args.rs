//! The command line, as plain values.
use vstd::prelude::*;

verus! {

/// What the program was asked to do.
#[derive(Debug, Clone, Copy, PartialEq, Eq, Structural)]
pub enum Command {
    /// Start the application.
    Start,
    /// Register the application to start on login.
    Register,
    /// Unregister the application from starting on login.
    Unregister,
}

/// The parsed command line: an optional configuration file and an optional
/// subcommand.
#[derive(Debug)]
pub struct Args {
    pub config: Option<String>,
    pub command: Option<Command>,
}

impl Args {
    /// The subcommand to run: `Start` when none was given.
    pub fn command(&self) -> (r: Command)
        ensures
            r == match self.command {
                Some(c) => c,
                None => Command::Start,
            },
    {
        match self.command {
            Some(c) => c,
            None => Command::Start,
        }
    }
}

} // verus!
