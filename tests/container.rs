use pkger::container::{check_exit, fix_name, truncate, ExecError, ExecOpts, Output};

#[test]
fn truncates_long_ids() {
    assert_eq!(truncate("0123456789abcdef0123"), "0123456789ab");
    assert_eq!(truncate("0123456789ab"), "0123456789ab");
    assert_eq!(truncate("abc"), "abc");
    assert_eq!(truncate(""), "");
}

#[test]
fn fixes_container_names() {
    assert_eq!(fix_name("pkger-hello_0.1.0:latest"), "pkger-hello0.1.0latest");
    assert_eq!(fix_name("a b/c"), "abc");
    assert_eq!(fix_name(""), "");
}

#[test]
fn exec_opts_defaults_and_builder() {
    let opts = ExecOpts::new();
    assert_eq!(opts.shell, "/bin/sh");
    assert_eq!(opts.cmd, "");
    assert!(opts.attach_stdout && opts.attach_stderr);
    assert!(!opts.allocate_tty && !opts.privileged);
    assert!(opts.user.is_none() && opts.working_dir.is_none() && opts.env.is_none());

    let opts = ExecOpts::new()
        .cmd("echo hi")
        .tty(true)
        .attach_stdout(false)
        .attach_stderr(false)
        .privileged(true)
        .user("builduser")
        .shell("/bin/bash")
        .working_dir("/tmp/bld");
    assert_eq!(opts.cmd, "echo hi");
    assert!(opts.allocate_tty && opts.privileged);
    assert!(!opts.attach_stdout && !opts.attach_stderr);
    assert_eq!(opts.user.as_deref(), Some("builduser"));
    assert_eq!(opts.working_dir.as_deref(), Some("/tmp/bld"));
    assert_eq!(opts.command(), vec!["/bin/bash".to_string(), "-c".to_string(), "echo hi".to_string()]);
}

#[test]
fn checked_exec_fails_on_nonzero_exit() {
    let ok = Output { stdout: vec!["hi\n".to_string()], stderr: vec![], exit_code: 0 };
    assert!(check_exit(ok).is_ok());

    let bad = Output {
        stdout: vec![],
        stderr: vec!["first".to_string(), "last".to_string()],
        exit_code: 7,
    };
    match check_exit(bad) {
        Err(ExecError::NonZero { exit_code, stderr_tail }) => {
            assert_eq!(exit_code, 7);
            assert_eq!(stderr_tail, "last");
        }
        Ok(_) => panic!("expected a failure"),
    }
}
