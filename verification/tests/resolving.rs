use minishell::resolver::candidate_paths;
use minishell::resolver::first_existing;
use minishell::resolver::search_dirs;

#[test]
fn search_dirs_splits_on_colons() {
    assert_eq!(search_dirs("/usr/bin:/bin"), vec!["/usr/bin".to_string(), "/bin".to_string()]);
}

#[test]
fn search_dirs_keeps_empty_entries() {
    assert_eq!(search_dirs("a::b"), vec!["a".to_string(), String::new(), "b".to_string()]);
    assert_eq!(search_dirs(""), vec![String::new()]);
}

#[test]
fn candidate_paths_append_the_name() {
    let dirs = vec!["/usr/bin".to_string(), "/bin".to_string()];
    assert_eq!(
        candidate_paths(&dirs, "ls"),
        vec!["/usr/bin/ls".to_string(), "/bin/ls".to_string()]
    );
}

#[test]
fn first_existing_prefers_the_earlier_directory() {
    let cands = vec!["/usr/bin/ls".to_string(), "/bin/ls".to_string()];
    assert_eq!(
        first_existing(&cands, &vec![true, true]),
        Some("/usr/bin/ls".to_string())
    );
    assert_eq!(
        first_existing(&cands, &vec![false, true]),
        Some("/bin/ls".to_string())
    );
}

#[test]
fn first_existing_without_match_finds_nothing() {
    let cands = vec!["/usr/bin/ls".to_string(), "/bin/ls".to_string()];
    assert_eq!(first_existing(&cands, &vec![false, false]), None);
    assert_eq!(first_existing(&Vec::new(), &Vec::new()), None);
}
