use flick::config::ServerConfig;
use flick::shell::{
    build_remote_target, decimal_text, escape_shell_arg, exec_args, list_command, mkdir_command, probe_args,
    remote_path_text, remove_command, rename_command, scp_args,
};

#[test]
fn test_escape_shell_arg_simple() {
    assert_eq!(escape_shell_arg("/tmp/test"), "'/tmp/test'");
}

#[test]
fn test_escape_shell_arg_with_single_quote() {
    assert_eq!(escape_shell_arg("it's"), "'it'\\''s'");
}

#[test]
fn test_escape_shell_arg_with_spaces() {
    assert_eq!(escape_shell_arg("/path/with spaces"), "'/path/with spaces'");
}

#[test]
fn test_escape_shell_arg_injection() {
    let malicious = "/tmp; rm -rf /";
    let escaped = escape_shell_arg(malicious);
    assert_eq!(escaped, "'/tmp; rm -rf /'");
}

#[test]
fn escape_empty_and_only_quotes() {
    assert_eq!(escape_shell_arg(""), "''");
    assert_eq!(escape_shell_arg("''"), "''\\'''\\'''");
    assert_eq!(escape_shell_arg("$(id) `x`"), "'$(id) `x`'");
}

#[test]
fn remote_commands_quote_their_paths() {
    assert_eq!(mkdir_command("/a b"), "mkdir -p '/a b'");
    assert_eq!(remove_command("/d", true), "rm -rf '/d'");
    assert_eq!(remove_command("/f", false), "rm -f '/f'");
    assert_eq!(rename_command("/x's", "/y"), "mv '/x'\\''s' '/y'");
    assert_eq!(list_command("/tmp"), "ls -la --time-style=long-iso '/tmp'");
}

#[test]
fn remote_paths_use_forward_slashes() {
    assert_eq!(remote_path_text("a\\b\\c.txt"), "a/b/c.txt");
    assert_eq!(remote_path_text("/srv/x"), "/srv/x");
}

#[test]
fn decimal_text_values() {
    assert_eq!(decimal_text(0), "0");
    assert_eq!(decimal_text(22), "22");
    assert_eq!(decimal_text(u64::MAX), "18446744073709551615");
}

fn key_server() -> ServerConfig {
    let mut c = ServerConfig::default();
    c.host = "example.org".into();
    c.user = "ann".into();
    c.port = 2200;
    c.auth_type = "key".into();
    c.key_path = Some("/k/id".into());
    c
}

#[test]
fn build_remote_target_joins_login_and_path() {
    assert_eq!(build_remote_target(&key_server(), "/srv/a.txt"), "ann@example.org:'/srv/a.txt'");
    assert_eq!(build_remote_target(&key_server(), "/srv/a b's"), "ann@example.org:'/srv/a b'\\''s'");
}

#[test]
fn probe_args_are_batch_mode_without_host_key_check() {
    let a = probe_args(&key_server());
    let expected: Vec<&str> = vec![
        "-o", "BatchMode=yes", "-o", "StrictHostKeyChecking=no", "-p", "2200", "-T", "-i", "/k/id",
        "ann@example.org", "exit 0",
    ];
    assert_eq!(a, expected);
    let mut p = key_server();
    p.auth_type = "password".into();
    let a = probe_args(&p);
    assert!(!a.iter().any(|s| s == "-i"));
}

#[test]
fn exec_and_scp_args() {
    let e = exec_args(&key_server(), "mkdir -p '/x'");
    let expected: Vec<&str> = vec![
        "-o", "BatchMode=yes", "-o", "StrictHostKeyChecking=no", "-p", "2200", "-i", "/k/id", "ann@example.org",
        "mkdir -p '/x'",
    ];
    assert_eq!(e, expected);
    let s = scp_args(&key_server(), "/l/a", "ann@example.org:/r/a");
    let expected: Vec<&str> = vec![
        "-P", "2200", "-o", "StrictHostKeyChecking=no", "-o", "BatchMode=yes", "-i", "/k/id", "/l/a",
        "ann@example.org:/r/a",
    ];
    assert_eq!(s, expected);
    let mut nk = key_server();
    nk.key_path = Some(String::new());
    assert_eq!(scp_args(&nk, "a", "b").len(), 8);
}
