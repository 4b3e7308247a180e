use minishell::command::Command;
use minishell::command::is_builtin;
use minishell::parser::parse_line;
use minishell::tokenizer::tokenize;

#[test]
fn tokenize_collapses_spaces() {
    let toks = tokenize("echo  a   b");
    assert_eq!(toks, vec!["echo".to_string(), "a".to_string(), "b".to_string()]);
}

#[test]
fn tokenize_trims_ends() {
    let toks = tokenize("  ls \t\r\n");
    assert_eq!(toks, vec!["ls".to_string()]);
}

#[test]
fn tokenize_keeps_interior_nonspace() {
    let toks = tokenize("a b:c");
    assert_eq!(toks, vec!["a".to_string(), "b:c".to_string()]);
}

#[test]
fn tokenize_blank_line_gives_no_tokens() {
    assert_eq!(tokenize(""), Vec::<String>::new());
    assert_eq!(tokenize("   \t  "), Vec::<String>::new());
}

#[test]
fn parse_blank_line_gives_nothing() {
    assert_eq!(parse_line(""), None);
    assert_eq!(parse_line("   "), None);
}

#[test]
fn parse_echo_collapses_spaces() {
    let cmd = parse_line("echo  a   b");
    assert_eq!(cmd, Some(Command::Echo(vec!["a".to_string(), "b".to_string()])));
}

#[test]
fn parse_exit_always_status_zero() {
    assert_eq!(parse_line("exit"), Some(Command::Exit(0)));
    assert_eq!(parse_line("exit 7"), Some(Command::Exit(0)));
}

#[test]
fn parse_type_takes_one_name() {
    assert_eq!(parse_line("type cd"), Some(Command::Type("cd".to_string())));
    assert_eq!(parse_line("type"), Some(Command::Type(String::new())));
}

#[test]
fn parse_cd_takes_one_path() {
    assert_eq!(parse_line("cd /tmp"), Some(Command::ChangeDirectory("/tmp".to_string())));
    assert_eq!(parse_line("cd"), Some(Command::ChangeDirectory(String::new())));
}

#[test]
fn parse_shell_takes_nothing() {
    assert_eq!(parse_line("shell"), Some(Command::ShellLocation));
}

#[test]
fn parse_exec_takes_file_and_args() {
    assert_eq!(
        parse_line("exec run.sh a b"),
        Some(Command::RunScript("run.sh".to_string(), vec!["a".to_string(), "b".to_string()]))
    );
    assert_eq!(parse_line("exec run.sh"), Some(Command::RunScript("run.sh".to_string(), vec![])));
    assert_eq!(parse_line("exec"), Some(Command::RunScript(String::new(), vec![])));
}

#[test]
fn parse_unknown_name_is_external() {
    assert_eq!(
        parse_line("ls -l /"),
        Some(Command::External("ls".to_string(), vec!["-l".to_string(), "/".to_string()]))
    );
    assert_eq!(parse_line("nonexistent123"), Some(Command::External("nonexistent123".to_string(), vec![])));
}

#[test]
fn builtin_set_is_exactly_the_six_names() {
    assert!(is_builtin("exit"));
    assert!(is_builtin("echo"));
    assert!(is_builtin("type"));
    assert!(is_builtin("cd"));
    assert!(is_builtin("shell"));
    assert!(is_builtin("exec"));
    assert!(!is_builtin("ls"));
    assert!(!is_builtin(""));
    assert!(!is_builtin("Echo"));
}
