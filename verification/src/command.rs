//! The command data model: the closed set of command variants the
//! interpreter understands, their mathematical view, and the builtin set
//! shared by the parser's dispatch and the `type` builtin.

use vstd::prelude::*;

use crate::text::str_eq;

verus! {

/// One parsed input line. A value is built from exactly one line and
/// carries no state of its own; the only process-wide state (the working
/// directory, the search path) lives outside and is read or changed when
/// the command's action is carried out.
#[derive(Debug, Clone, PartialEq, Eq)]
pub enum Command {
    /// Terminate the interpreter with the given status code.
    Exit(i32),
    /// Print the arguments joined by single spaces.
    Echo(Vec<String>),
    /// Report whether the named command is a builtin, on the search path,
    /// or unknown. The name may be empty when the argument was missing.
    Type(String),
    /// Change the working directory; an empty path means the home directory.
    ChangeDirectory(String),
    /// Report the directory holding the interpreter's own executable.
    ShellLocation,
    /// Replay the named file's lines as commands. The trailing arguments
    /// are accepted by the grammar but no builtin reads them.
    RunScript(String, Vec<String>),
    /// Launch the named program as a child process with the arguments.
    External(String, Vec<String>),
}

/// The mathematical view of a `Command`: the same variants over sequences.
pub enum SpecCommand {
    Exit(int),
    Echo(Seq<Seq<char>>),
    Type(Seq<char>),
    ChangeDirectory(Seq<char>),
    ShellLocation,
    RunScript(Seq<char>, Seq<Seq<char>>),
    External(Seq<char>, Seq<Seq<char>>),
}

impl View for Command {
    type V = SpecCommand;

    open spec fn view(&self) -> SpecCommand {
        match self {
            Command::Exit(code) => SpecCommand::Exit(*code as int),
            Command::Echo(args) => SpecCommand::Echo(args.deep_view()),
            Command::Type(name) => SpecCommand::Type(name@),
            Command::ChangeDirectory(dir) => SpecCommand::ChangeDirectory(dir@),
            Command::ShellLocation => SpecCommand::ShellLocation,
            Command::RunScript(file, args) => SpecCommand::RunScript(file@, args.deep_view()),
            Command::External(name, args) => SpecCommand::External(name@, args.deep_view()),
        }
    }
}

impl DeepView for Command {
    type V = SpecCommand;

    open spec fn deep_view(&self) -> SpecCommand {
        self.view()
    }
}

/// The builtin set. The parser's dispatch and the `type` builtin both go
/// by this one definition.
pub open spec fn spec_is_builtin(name: Seq<char>) -> bool {
    name == "exit"@ || name == "echo"@ || name == "type"@ || name == "cd"@ || name == "shell"@
        || name == "exec"@
}

/// Whether the name is one of the interpreter's builtins.
pub fn is_builtin(name: &str) -> (r: bool)
    ensures
        r == spec_is_builtin(name@),
{
    str_eq(name, "exit") || str_eq(name, "echo") || str_eq(name, "type") || str_eq(name, "cd")
        || str_eq(name, "shell") || str_eq(name, "exec")
}

} // verus!
