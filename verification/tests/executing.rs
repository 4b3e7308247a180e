use minishell::command::Command;
use minishell::executor::Action;
use minishell::executor::Observation;
use minishell::executor::cd_target;
use minishell::executor::decide;
use minishell::executor::prompt_string;
use minishell::executor::script_commands;
use minishell::executor::type_report;
use minishell::parser::parse_line;

fn observed_nothing() -> Observation {
    Observation {
        home: String::new(),
        shell_dir: String::new(),
        resolved: None,
        target_exists: false,
        script_exists: false,
        script_mode: 0,
    }
}

#[test]
fn echo_prints_args_space_joined() {
    let cmd = parse_line("echo  a   b").unwrap();
    let action = decide(&cmd, &observed_nothing());
    assert_eq!(action, Action::Report("a b".to_string()));
}

#[test]
fn echo_with_no_args_prints_empty_line() {
    let cmd = parse_line("echo").unwrap();
    let action = decide(&cmd, &observed_nothing());
    assert_eq!(action, Action::Report(String::new()));
}

#[test]
fn exit_terminates_with_its_code() {
    let action = decide(&Command::Exit(0), &observed_nothing());
    assert_eq!(action, Action::Terminate(0));
}

#[test]
fn type_reports_builtin() {
    assert_eq!(type_report("cd", &None), "cd is a shell builtin");
    let cmd = parse_line("type cd").unwrap();
    let action = decide(&cmd, &observed_nothing());
    assert_eq!(action, Action::Report("cd is a shell builtin".to_string()));
}

#[test]
fn type_reports_unknown_as_not_found() {
    assert_eq!(type_report("nonexistent123", &None), "nonexistent123 not found");
}

#[test]
fn type_reports_resolved_path() {
    assert_eq!(type_report("ls", &Some("/bin/ls".to_string())), "ls is /bin/ls");
}

#[test]
fn type_reports_missing_argument() {
    assert_eq!(type_report("", &None), "type: not enough arguments");
}

#[test]
fn cd_with_no_arg_goes_home() {
    assert_eq!(cd_target("", "/home/u"), "/home/u");
    let mut obs = observed_nothing();
    obs.home = "/home/u".to_string();
    obs.target_exists = true;
    let cmd = parse_line("cd").unwrap();
    let action = decide(&cmd, &obs);
    assert_eq!(action, Action::ChangeDir("/home/u".to_string()));
    assert_eq!(prompt_string("/home/u"), "/home/u $ ");
}

#[test]
fn cd_to_missing_dir_only_reports() {
    let mut obs = observed_nothing();
    obs.target_exists = false;
    let cmd = parse_line("cd /nope").unwrap();
    let action = decide(&cmd, &obs);
    assert_eq!(action, Action::Report("/nope: No such file or directory".to_string()));
}

#[test]
fn shell_location_reports_own_dir() {
    let mut obs = observed_nothing();
    obs.shell_dir = "/opt/tools".to_string();
    let action = decide(&Command::ShellLocation, &obs);
    assert_eq!(action, Action::Report("/opt/tools".to_string()));
}

#[test]
fn script_replay_stops_at_exit() {
    let cmds = script_commands("echo one\nexit\necho two");
    assert_eq!(cmds, vec![Command::Echo(vec!["one".to_string()])]);
    let action = decide(&cmds[0], &observed_nothing());
    assert_eq!(action, Action::Report("one".to_string()));
}

#[test]
fn script_replay_skips_blank_lines() {
    let cmds = script_commands("\necho a\n   \necho b\n");
    assert_eq!(
        cmds,
        vec![
            Command::Echo(vec!["a".to_string()]),
            Command::Echo(vec!["b".to_string()]),
        ]
    );
}

#[test]
fn script_without_exit_replays_everything() {
    let cmds = script_commands("cd /tmp\nls");
    assert_eq!(
        cmds,
        vec![
            Command::ChangeDirectory("/tmp".to_string()),
            Command::External("ls".to_string(), vec![]),
        ]
    );
}

#[test]
fn script_missing_file_only_reports() {
    let mut obs = observed_nothing();
    obs.script_exists = false;
    let cmd = Command::RunScript("run.sh".to_string(), vec![]);
    let action = decide(&cmd, &obs);
    assert_eq!(action, Action::Report("run.sh: No such file or directory".to_string()));
}

#[test]
fn script_without_execute_bit_is_refused() {
    let mut obs = observed_nothing();
    obs.script_exists = true;
    obs.script_mode = 0o644;
    let cmd = Command::RunScript("run.sh".to_string(), vec![]);
    let action = decide(&cmd, &obs);
    assert_eq!(action, Action::Report("run.sh: Permission denied".to_string()));
}

#[test]
fn script_with_any_execute_bit_is_replayed() {
    let mut obs = observed_nothing();
    obs.script_exists = true;
    obs.script_mode = 0o100644;
    let cmd = Command::RunScript("run.sh".to_string(), vec![]);
    assert_eq!(decide(&cmd, &obs), Action::Report("run.sh: Permission denied".to_string()));
    obs.script_mode = 0o100755;
    assert_eq!(decide(&cmd, &obs), Action::Replay("run.sh".to_string()));
    obs.script_mode = 0o010;
    assert_eq!(decide(&cmd, &obs), Action::Replay("run.sh".to_string()));
}

#[test]
fn unknown_command_only_reports() {
    let cmd = parse_line("nonexistent123").unwrap();
    assert_eq!(cmd, Command::External("nonexistent123".to_string(), vec![]));
    let action = decide(&cmd, &observed_nothing());
    assert_eq!(action, Action::Report("nonexistent123: command not found".to_string()));
}

#[test]
fn resolved_command_spawns_with_args() {
    let mut obs = observed_nothing();
    obs.resolved = Some("/bin/ls".to_string());
    let cmd = parse_line("ls -l /").unwrap();
    let action = decide(&cmd, &obs);
    assert_eq!(
        action,
        Action::Spawn("/bin/ls".to_string(), vec!["-l".to_string(), "/".to_string()])
    );
}
