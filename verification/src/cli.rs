//! The commands of the command line, as plain values.

use vstd::prelude::*;

verus! {

/// What the program can be asked to do.
#[derive(Debug, PartialEq)]
pub enum Commands {
    /// Initialize a new blog project with the given name.
    Init { name: String },
    /// Build a blog project into the given output directory.
    Build { dir: String },
    /// Serve a blog project on the given port.
    Serve { port: u16 },
}

/// A parsed command line.
#[derive(Debug, PartialEq)]
pub struct Cli {
    command: Commands,
}

impl Cli {
    /// The command line that asks for `command`.
    pub fn new(command: Commands) -> (cli: Cli)
        ensures
            cli.command() == command,
    {
        Cli { command }
    }

    /// The command that was asked for.
    pub closed spec fn command(&self) -> Commands {
        self.command
    }

    /// The command that was asked for.
    pub fn get_command(&self) -> (command: &Commands)
        ensures
            *command == self.command(),
    {
        &self.command
    }

    /// The command, out of the command line.
    pub fn into_command(self) -> (command: Commands)
        ensures
            command == self.command(),
    {
        self.command
    }
}

} // verus!
