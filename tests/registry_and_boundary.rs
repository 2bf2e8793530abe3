use bun_pty::boundary::{
    handle_key, lookup_code, prepare_spawn, pty_dims, read_capacity, spawn_code, write_length,
};
use bun_pty::command::Command;
use bun_pty::registry::{Registry, MAX_HANDLE};
use bun_pty::ERROR;

fn env() -> Vec<(String, String)> {
    vec![("PATH".to_string(), "/bin".to_string()), ("TERM".to_string(), "xterm".to_string())]
}

#[test]
fn handles_start_at_one_and_are_never_reused() {
    let mut r: Registry<&str> = Registry::new();
    assert_eq!(r.store("a"), Some(1));
    assert_eq!(r.store("b"), Some(2));
    assert_eq!(r.remove(1), Some("a"));
    assert_eq!(r.get(1), None);
    assert_eq!(r.store("c"), Some(3));
    assert_eq!(r.get(2), Some(&"b"));
    assert_eq!(r.get(3), Some(&"c"));
    assert_eq!(r.remove(1), None);
}

#[test]
fn unknown_handle_is_an_error() {
    let r: Registry<i32> = Registry::new();
    assert_eq!(lookup_code(r.get(5).copied()), ERROR);
    assert_eq!(lookup_code(Some(-2)), -2);
}

#[test]
fn handle_checks() {
    assert_eq!(handle_key(0), None);
    assert_eq!(handle_key(-4), None);
    assert_eq!(handle_key(12), Some(12));
    assert_eq!(spawn_code(Some(12)), 12);
    assert_eq!(spawn_code(Some(MAX_HANDLE)), i32::MAX);
    assert_eq!(spawn_code(None), ERROR);
}

#[test]
fn size_and_length_checks() {
    assert_eq!(pty_dims(80, 24), Some((80, 24)));
    assert_eq!(pty_dims(0, 24), None);
    assert_eq!(pty_dims(80, -1), None);
    assert_eq!(pty_dims(65537, 1), Some((1, 1)));
    assert_eq!(read_capacity(0), None);
    assert_eq!(read_capacity(4096), Some(4096));
    assert_eq!(write_length(-1), None);
    assert_eq!(write_length(0), Some(0));
}

#[test]
fn spawn_with_bad_size_is_refused() {
    assert!(prepare_spawn("echo hello", "/tmp", 0, 24, env()).is_none());
    assert!(prepare_spawn("echo hello", "/tmp", 80, 0, env()).is_none());
    assert!(prepare_spawn("echo hello", "/tmp", -80, -24, env()).is_none());
}

#[test]
fn spawn_plan_for_echo_hello() {
    let (c, w, h) = prepare_spawn("echo hello", "/tmp", 80, 24, env()).unwrap();
    assert_eq!((w, h), (80, 24));
    assert_eq!(c.cmd, "echo");
    assert_eq!(c.args, vec!["hello".to_string()]);
    assert_eq!(c.cwd, "/tmp");
    assert_eq!(c.env, env());
}

#[test]
fn command_line_respects_quotes() {
    let c = Command::from_cmdline("sh -c 'echo \"a b\"' x\\ y", "/", env());
    assert_eq!(c.cmd, "sh");
    assert_eq!(c.args, vec!["-c".to_string(), "echo \"a b\"".to_string(), "x y".to_string()]);
}

#[test]
fn empty_command_line_gives_empty_command() {
    let c = Command::from_cmdline("   ", "/home", env());
    assert_eq!(c.cmd, "");
    assert!(c.args.is_empty());
    assert!(c.env.is_empty());
    assert_eq!(c.cwd, "/home");
}

#[test]
fn unterminated_quote_gives_empty_command() {
    let c = Command::from_cmdline("echo 'oops", "/", env());
    assert_eq!(c.cmd, "");
    assert!(c.args.is_empty());
}

#[test]
fn tokens_become_executable_and_arguments() {
    let c = Command::from_tokens(vec!["ls".to_string(), "-l".to_string(), "/".to_string()], "/", env());
    assert_eq!(c.cmd, "ls");
    assert_eq!(c.args, vec!["-l".to_string(), "/".to_string()]);
    assert_eq!(c.env.len(), 2);
}
