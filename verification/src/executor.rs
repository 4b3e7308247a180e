//! Command executor, decision half: given a command and the facts the
//! surrounding program observed (home directory, resolution result, file
//! existence and permissions), decide the one action to carry out. The
//! surrounding program performs the action — printing, changing directory,
//! spawning a child, replaying a script — and every failure it meets is
//! reported, never fatal.

use vstd::prelude::*;

use crate::command::Command;
use crate::command::SpecCommand;
use crate::command::is_builtin;
use crate::command::spec_is_builtin;
use crate::parser::parse_line;
use crate::parser::spec_parse_tokens;
use crate::parser::spec_tail;
use crate::text::clone_strings;
use crate::text::concat2;
use crate::text::concat3;
use crate::text::join_with;
use crate::text::spec_join;
use crate::text::spec_split;
use crate::text::split_on;
use crate::tokenizer::spec_tokenize;

verus! {

/// The one effect a command asks for. `Report` is the only action of every
/// non-fatal failure: it prints one line and leaves the interpreter state
/// — working directory and exit status — untouched.
#[derive(Debug, Clone, PartialEq, Eq)]
pub enum Action {
    /// Print the line and continue.
    Report(String),
    /// Make the path, known to exist, the working directory.
    ChangeDir(String),
    /// Spawn the resolved program with the arguments, inheriting the
    /// standard streams, and wait for it to finish.
    Spawn(String, Vec<String>),
    /// Read the file and replay its lines as commands.
    Replay(String),
    /// Terminate the interpreter with the status code.
    Terminate(i32),
}

/// The mathematical view of an `Action`.
pub enum SpecAction {
    Report(Seq<char>),
    ChangeDir(Seq<char>),
    Spawn(Seq<char>, Seq<Seq<char>>),
    Replay(Seq<char>),
    Terminate(int),
}

impl View for Action {
    type V = SpecAction;

    open spec fn view(&self) -> SpecAction {
        match self {
            Action::Report(line) => SpecAction::Report(line@),
            Action::ChangeDir(path) => SpecAction::ChangeDir(path@),
            Action::Spawn(path, args) => SpecAction::Spawn(path@, args.deep_view()),
            Action::Replay(file) => SpecAction::Replay(file@),
            Action::Terminate(code) => SpecAction::Terminate(*code as int),
        }
    }
}

impl DeepView for Action {
    type V = SpecAction;

    open spec fn deep_view(&self) -> SpecAction {
        self.view()
    }
}

/// What the surrounding program observed before asking for a decision:
/// the home directory, the directory holding the interpreter's own
/// executable, the search-path resolution of the command's name, whether
/// the `cd` target exists, and whether the script file exists and with
/// which permission bits. Only the fields the command variant reads matter
/// to the decision.
pub struct Observation {
    pub home: String,
    pub shell_dir: String,
    pub resolved: Option<String>,
    pub target_exists: bool,
    pub script_exists: bool,
    pub script_mode: u32,
}

/// The mathematical view of an `Observation`.
pub struct SpecObservation {
    pub home: Seq<char>,
    pub shell_dir: Seq<char>,
    pub resolved: Option<Seq<char>>,
    pub target_exists: bool,
    pub script_exists: bool,
    pub script_mode: u32,
}

impl View for Observation {
    type V = SpecObservation;

    open spec fn view(&self) -> SpecObservation {
        SpecObservation {
            home: self.home@,
            shell_dir: self.shell_dir@,
            resolved: self.resolved.deep_view(),
            target_exists: self.target_exists,
            script_exists: self.script_exists,
            script_mode: self.script_mode,
        }
    }
}

/// The `type` builtin's report line.
pub open spec fn spec_type_report(name: Seq<char>, resolved: Option<Seq<char>>) -> Seq<char> {
    if name.len() == 0 {
        "type: not enough arguments"@
    } else if spec_is_builtin(name) {
        name + " is a shell builtin"@
    } else if resolved is Some {
        name + " is "@ + resolved->0
    } else {
        name + " not found"@
    }
}

/// The `cd` target: the given path, or the home directory for an empty one.
pub open spec fn spec_cd_target(dir: Seq<char>, home: Seq<char>) -> Seq<char> {
    if dir.len() == 0 {
        home
    } else {
        dir
    }
}

/// The prompt shown before a line is read.
pub open spec fn spec_prompt(cwd: Seq<char>) -> Seq<char> {
    cwd + " $ "@
}

/// The decision per command variant, over the observed facts.
pub open spec fn spec_decide(c: SpecCommand, obs: SpecObservation) -> SpecAction {
    match c {
        SpecCommand::Exit(code) => SpecAction::Terminate(code),
        SpecCommand::Echo(args) => SpecAction::Report(spec_join(args, " "@)),
        SpecCommand::Type(name) => SpecAction::Report(spec_type_report(name, obs.resolved)),
        SpecCommand::ChangeDirectory(dir) => if obs.target_exists {
            SpecAction::ChangeDir(spec_cd_target(dir, obs.home))
        } else {
            SpecAction::Report(dir + ": No such file or directory"@)
        },
        SpecCommand::ShellLocation => SpecAction::Report(obs.shell_dir),
        SpecCommand::RunScript(file, _args) => if !obs.script_exists {
            SpecAction::Report(file + ": No such file or directory"@)
        } else if file_mode_forbids(obs.script_mode) {
            SpecAction::Report(file + ": Permission denied"@)
        } else {
            SpecAction::Replay(file)
        },
        SpecCommand::External(name, args) => match obs.resolved {
            Option::Some(path) => SpecAction::Spawn(path, args),
            Option::None => SpecAction::Report(name + ": command not found"@),
        },
    }
}

/// Replay is refused when no execute bit — owner, group or other — is set.
pub open spec fn file_mode_forbids(mode: u32) -> bool {
    mode & 0o111 == 0
}

/// The `type` builtin's report: a missing argument, a builtin name, the
/// resolved path, or not found.
pub fn type_report(name: &str, resolved: &Option<String>) -> (r: String)
    ensures
        r@ == spec_type_report(name@, resolved.deep_view()),
{
    if name.is_empty() {
        String::from_str("type: not enough arguments")
    } else if is_builtin(name) {
        concat2(name, " is a shell builtin")
    } else {
        match resolved {
            Option::Some(path) => concat3(name, " is ", path.as_str()),
            Option::None => concat2(name, " not found"),
        }
    }
}

/// The `cd` target: the given path, or the home directory for an empty one.
pub fn cd_target(dir: &str, home: &str) -> (r: String)
    ensures
        r@ == spec_cd_target(dir@, home@),
{
    if dir.is_empty() {
        home.to_owned()
    } else {
        dir.to_owned()
    }
}

/// The prompt for a working directory.
pub fn prompt_string(cwd: &str) -> (r: String)
    ensures
        r@ == spec_prompt(cwd@),
{
    concat2(cwd, " $ ")
}

/// Decides the action of one command from the observed facts.
pub fn decide(cmd: &Command, obs: &Observation) -> (r: Action)
    ensures
        r@ == spec_decide(cmd@, obs@),
{
    match cmd {
        Command::Exit(code) => Action::Terminate(*code),
        Command::Echo(args) => Action::Report(join_with(args, " ")),
        Command::Type(name) => Action::Report(type_report(name.as_str(), &obs.resolved)),
        Command::ChangeDirectory(dir) => {
            if obs.target_exists {
                Action::ChangeDir(cd_target(dir.as_str(), obs.home.as_str()))
            } else {
                Action::Report(concat2(dir.as_str(), ": No such file or directory"))
            }
        },
        Command::ShellLocation => Action::Report(obs.shell_dir.clone()),
        Command::RunScript(file, _args) => {
            if !obs.script_exists {
                Action::Report(concat2(file.as_str(), ": No such file or directory"))
            } else if file_mode_denies(obs.script_mode) {
                Action::Report(concat2(file.as_str(), ": Permission denied"))
            } else {
                Action::Replay(file.clone())
            }
        },
        Command::External(name, args) => {
            match &obs.resolved {
                Option::Some(path) => Action::Spawn(path.clone(), clone_strings(args)),
                Option::None => Action::Report(concat2(name.as_str(), ": command not found")),
            }
        },
    }
}

fn file_mode_denies(mode: u32) -> (r: bool)
    ensures
        r == file_mode_forbids(mode),
{
    mode & 0o111 == 0
}

/// The commands a script's text replays, in order: each line's tokens are
/// parsed as at the prompt, token-less lines replay nothing, and the list
/// stops before the first `exit` — a script's `exit` is swallowed and
/// never reaches the outer interpreter.
pub open spec fn spec_script_commands(lines: Seq<Seq<char>>) -> Seq<SpecCommand>
    decreases lines.len(),
{
    if lines.len() == 0 {
        Seq::<SpecCommand>::empty()
    } else {
        let toks = spec_tokenize(lines[0]);
        let rest = spec_script_commands(lines.drop_first());
        if toks.len() == 0 {
            rest
        } else if spec_parse_tokens(toks) is Exit {
            Seq::<SpecCommand>::empty()
        } else {
            seq![spec_parse_tokens(toks)] + rest
        }
    }
}

/// The commands replayed from a script file's contents.
pub open spec fn spec_script(contents: Seq<char>) -> Seq<SpecCommand> {
    spec_script_commands(spec_split(contents, '\n'))
}

/// The commands to replay from a script file's contents.
pub fn script_commands(contents: &str) -> (r: Vec<Command>)
    ensures
        r.deep_view() == spec_script(contents@),
{
    let lines = split_on(contents, '\n');
    let ghost ldv = lines.deep_view();
    let mut out: Vec<Command> = Vec::new();
    let mut i: usize = 0;
    proof {
        assert(ldv.skip(0) =~= ldv);
    }
    loop
        invariant_except_break
            spec_script_commands(ldv) =~= out.deep_view() + spec_script_commands(
                ldv.skip(i as int),
            ),
        invariant
            0 <= i <= lines.len(),
            ldv == lines.deep_view(),
            ldv.len() == lines@.len(),
        ensures
            out.deep_view() =~= spec_script_commands(ldv),
        decreases lines.len() - i,
    {
        if i == lines.len() {
            proof {
                assert(ldv.skip(i as int) =~= Seq::<Seq<char>>::empty());
            }
            break;
        }
        proof {
            assert(ldv.skip(i as int)[0] == ldv[i as int]);
            assert(ldv.skip(i as int).drop_first() =~= ldv.skip(i as int + 1));
        }
        let ghost prev = out.deep_view();
        let parsed = parse_line(lines[i].as_str());
        match parsed {
            Option::None => {},
            Option::Some(c) => {
                if let Command::Exit(_) = &c {
                    proof {
                        assert(spec_script_commands(ldv.skip(i as int)) =~= Seq::<
                            SpecCommand,
                        >::empty());
                    }
                    break;
                }
                proof {
                    assert(!(c@ is Exit));
                }
                out.push(c);
                proof {
                    assert(out.deep_view() =~= prev + seq![
                        spec_parse_tokens(spec_tokenize(ldv[i as int])),
                    ]);
                }
            },
        }
        i = i + 1;
    }
    out
}

/// An unknown single-word command is only reported. A line whose one token
/// is no builtin name parses to the external fallback with no arguments,
/// and where the search path resolves nothing, the decided action prints
/// `name: command not found` — it neither changes the working directory
/// nor terminates the interpreter.
pub proof fn lemma_unknown_command_only_reports(t: Seq<char>, obs: SpecObservation)
    requires
        !spec_is_builtin(t),
        obs.resolved is None,
    ensures
        spec_parse_tokens(seq![t]) == SpecCommand::External(t, Seq::<Seq<char>>::empty()),
        spec_decide(SpecCommand::External(t, Seq::<Seq<char>>::empty()), obs)
            == SpecAction::Report(t + ": command not found"@),
{
    assert(seq![t][0] == t);
    assert(spec_tail(seq![t], 1) =~= Seq::<Seq<char>>::empty());
}

/// A replayed script never terminates the outer interpreter: replay stops
/// before the first `exit` line, so no replayed command is ever `Exit`.
pub proof fn lemma_replay_never_exits(lines: Seq<Seq<char>>)
    ensures
        forall|i: int|
            0 <= i < spec_script_commands(lines).len() ==> !(#[trigger] spec_script_commands(
                lines,
            )[i] is Exit),
    decreases lines.len(),
{
    if lines.len() == 0 {
    } else {
        lemma_replay_never_exits(lines.drop_first());
        let toks = spec_tokenize(lines[0]);
        let rest = spec_script_commands(lines.drop_first());
        if toks.len() > 0 && !(spec_parse_tokens(toks) is Exit) {
            assert forall|i: int| 0 <= i < spec_script_commands(lines).len() implies !(#[trigger]
            spec_script_commands(lines)[i] is Exit) by {
                if i > 0 {
                    assert(spec_script_commands(lines)[i] == rest[i - 1]);
                }
            }
        }
    }
}

} // verus!
