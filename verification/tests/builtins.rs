use rsh::builtins::cd;
use rsh::builtins::echo;
use rsh::builtins::exit;
use rsh::builtins::find_command_exe;
use rsh::builtins::is_builtin;
use rsh::builtins::join_path;
use rsh::builtins::pwd;
use rsh::builtins::type_cmd;
use rsh::builtins::CdRequest;

#[test]
fn exit_zero_terminates() {
    let r = exit(&["0".to_string()]);
    assert_eq!(r, Ok(true));
}

#[test]
fn exit_nonzero_rejected() {
    let r = exit(&["1".to_string()]);
    assert_eq!(r, Err("Unknown exit code received in arg\n".to_string()));
}

#[test]
fn exit_without_args_rejected() {
    let r = exit(&[]);
    assert_eq!(r, Err("exit requires a single argument\n".to_string()));
}

#[test]
fn exit_with_two_args_rejected() {
    let r = exit(&["0".to_string(), "0".to_string()]);
    assert_eq!(r, Err("exit requires a single argument\n".to_string()));
}

#[test]
fn echo_joins_with_single_spaces() {
    let (out, quit) = echo(&["a".to_string(), "b c".to_string(), "d".to_string()]);
    assert_eq!(out, "a b c d\n");
    assert!(!quit);
}

#[test]
fn echo_without_args_prints_empty_line() {
    let (out, quit) = echo(&[]);
    assert_eq!(out, "\n");
    assert!(!quit);
}

#[test]
fn pwd_reports_working_directory() {
    let r = pwd(&Some("/tmp/blueberry".to_string()));
    assert_eq!(r, Ok(("/tmp/blueberry\n".to_string(), false)));
}

#[test]
fn pwd_fails_without_working_directory() {
    let r = pwd(&None);
    assert_eq!(r, Err("error in pwd".to_string()));
}

#[test]
fn cd_without_args_stays() {
    let r = cd(&[], &None);
    assert!(matches!(r, Ok((CdRequest::Stay, false))));
}

#[test]
fn cd_tilde_fails_when_home_unset() {
    let r = cd(&["~".to_string()], &None);
    assert_eq!(r, Err("$HOME is not set".to_string()));
}

#[test]
fn cd_tilde_resolves_home() {
    let r = cd(&["~".to_string()], &Some("/home/someone".to_string()));
    match r {
        Ok((CdRequest::Go { target, diag }, quit)) => {
            assert_eq!(target, "/home/someone");
            assert_eq!(diag, "cd: ~: No such file or directory\n");
            assert!(!quit);
        }
        other => panic!("unexpected cd result: {other:?}"),
    }
}

#[test]
fn cd_takes_argument_as_literal_path() {
    let r = cd(&["./raspberry/raspberry".to_string()], &Some("/home/someone".to_string()));
    match r {
        Ok((CdRequest::Go { target, diag }, quit)) => {
            assert_eq!(target, "./raspberry/raspberry");
            assert_eq!(diag, "cd: ./raspberry/raspberry: No such file or directory\n");
            assert!(!quit);
        }
        other => panic!("unexpected cd result: {other:?}"),
    }
}

#[test]
fn type_reports_builtin() {
    let r = type_cmd(&["cd".to_string()], &None);
    assert_eq!(r, Ok(("cd is a shell builtin\n".to_string(), false)));
}

#[test]
fn type_reports_resolved_path() {
    let r = type_cmd(&["xyz".to_string()], &Some("/usr/bin/xyz".to_string()));
    assert_eq!(r, Ok(("xyz is /usr/bin/xyz\n".to_string(), false)));
}

#[test]
fn type_reports_not_found() {
    let r = type_cmd(&["nonexistent_xyz".to_string()], &None);
    assert_eq!(r, Ok(("nonexistent_xyz: not found\n".to_string(), false)));
}

#[test]
fn type_without_args_rejected() {
    let r = type_cmd(&[], &None);
    assert_eq!(r, Err("type requires an argument\n".to_string()));
}

#[test]
fn builtin_table_is_exact() {
    assert!(is_builtin("pwd"));
    assert!(is_builtin("type"));
    assert!(is_builtin("echo"));
    assert!(is_builtin("exit"));
    assert!(is_builtin("cd"));
    assert!(!is_builtin("ls"));
    assert!(!is_builtin("ech"));
    assert!(!is_builtin("echoo"));
    assert!(!is_builtin(""));
}

#[test]
fn join_path_inserts_separator() {
    let p = join_path(&"/usr/bin".to_string(), &"ls".to_string());
    assert_eq!(p, "/usr/bin/ls");
}

#[test]
fn join_path_keeps_trailing_separator() {
    let p = join_path(&"/usr/bin/".to_string(), &"ls".to_string());
    assert_eq!(p, "/usr/bin/ls");
}

#[test]
fn join_path_with_empty_dir_is_bare_name() {
    let p = join_path(&String::new(), &"ls".to_string());
    assert_eq!(p, "ls");
}

#[test]
fn resolver_returns_first_listed_hit() {
    let dirs = vec!["/a".to_string(), "/b".to_string(), "/c".to_string()];
    let hits = vec![false, true, true];
    let r = find_command_exe(&"x".to_string(), &dirs, &hits);
    assert_eq!(r, Some("/b/x".to_string()));
}

#[test]
fn resolver_finds_single_late_hit() {
    let dirs = vec!["/a".to_string(), "/b".to_string(), "/c".to_string()];
    let hits = vec![false, false, true];
    let r = find_command_exe(&"x".to_string(), &dirs, &hits);
    assert_eq!(r, Some("/c/x".to_string()));
}

#[test]
fn resolver_returns_none_without_hits() {
    let dirs = vec!["/a".to_string(), "/b".to_string()];
    let hits = vec![false, false];
    let r = find_command_exe(&"x".to_string(), &dirs, &hits);
    assert_eq!(r, None);
}

#[test]
fn resolver_returns_none_for_empty_search_path() {
    let r = find_command_exe(&"x".to_string(), &Vec::new(), &Vec::new());
    assert_eq!(r, None);
}
