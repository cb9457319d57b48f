use aterm::cmdline::{
    build_ssh_args, local_shell_args, remote_bridge_args, shell_or_default, ssh_destination,
    tmux_attach_command,
};

#[test]
fn shell_default_applies_only_without_preference() {
    assert_eq!(shell_or_default(Some("/bin/bash".to_string())), "/bin/bash");
    assert_eq!(shell_or_default(None), "/bin/zsh");
}

#[test]
fn local_shell_args_plain() {
    assert_eq!(local_shell_args("/bin/zsh", &None), vec!["-l", "-i"]);
}

#[test]
fn local_shell_args_with_command_reexecs_shell() {
    let args = local_shell_args("/bin/zsh", &Some("make test".to_string()));
    assert_eq!(
        args,
        vec!["-l", "-i", "-c", "make test; exec /bin/zsh -l -i"]
    );
}

#[test]
fn ssh_destination_joins_user_and_host() {
    assert_eq!(ssh_destination("dev", "example.com"), "dev@example.com");
}

#[test]
fn ssh_args_without_key() {
    let args = build_ssh_args("example.com", 22, "dev", None);
    assert_eq!(
        args,
        vec![
            "-o",
            "BatchMode=yes",
            "-o",
            "ConnectTimeout=30",
            "-o",
            "StrictHostKeyChecking=accept-new",
            "-p",
            "22",
            "dev@example.com",
        ]
    );
}

#[test]
fn ssh_args_with_key() {
    let args = build_ssh_args("example.com", 2222, "dev", Some("/home/dev/.ssh/id_ed25519"));
    assert_eq!(
        args,
        vec![
            "-o",
            "BatchMode=yes",
            "-o",
            "ConnectTimeout=30",
            "-o",
            "StrictHostKeyChecking=accept-new",
            "-p",
            "2222",
            "-i",
            "/home/dev/.ssh/id_ed25519",
            "dev@example.com",
        ]
    );
}

#[test]
fn attach_command_without_startup_command() {
    let cmd = tmux_attach_command("work", "/srv/app", &None);
    assert_eq!(cmd, "tmux new-session -A -s 'work' -c '/srv/app'");
}

#[test]
fn attach_command_with_startup_command() {
    let cmd = tmux_attach_command("work", "/srv/app", &Some("htop".to_string()));
    assert_eq!(cmd, "tmux new-session -A -s 'work' -c '/srv/app' 'htop'");
}

#[test]
fn reconnect_builds_identical_attach_command() {
    // A disconnect followed by a reconnect reuses the session name; both
    // invocations attach-or-create the same multiplexer session.
    let first = tmux_attach_command("persist", "/srv/app", &None);
    let second = tmux_attach_command("persist", "/srv/app", &None);
    assert_eq!(first, second);
    assert!(first.contains("new-session -A -s 'persist'"));
}

#[test]
fn bridge_args_force_tty_and_end_with_attach_command() {
    let attach = tmux_attach_command("work", "/srv", &None);
    let args = remote_bridge_args("host", 22, "dev", &None, attach.clone());
    assert_eq!(
        args,
        vec![
            "-t".to_string(),
            "-o".to_string(),
            "StrictHostKeyChecking=accept-new".to_string(),
            "-p".to_string(),
            "22".to_string(),
            "dev@host".to_string(),
            attach,
        ]
    );
}

#[test]
fn bridge_args_include_identity_file() {
    let attach = tmux_attach_command("w", "/srv", &None);
    let args = remote_bridge_args("host", 22, "dev", &Some("/k".to_string()), attach);
    assert_eq!(args[5], "-i");
    assert_eq!(args[6], "/k");
    assert_eq!(args[7], "dev@host");
}
