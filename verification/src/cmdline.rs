//! Construction of the exact invocations the session manager spawns: the
//! local login-interactive shell, and the secure-shell command that attaches
//! to (or creates) a named session of the remote multiplexer.

use vstd::prelude::*;
use vstd::string::StringExecFns;

use crate::text::{spec_udec, u64_to_dec, views_of};

verus! {

/// The view of an optional owned string.
pub open spec fn opt_view(v: Option<String>) -> Option<Seq<char>> {
    match v {
        None => None,
        Some(s) => Some(s@),
    }
}

/// The shell program to drive: the caller's preference (normally the
/// `SHELL` environment variable) or `/bin/zsh` when none is known.
pub fn shell_or_default(preferred: Option<String>) -> (r: String)
    ensures
        r@ == (match preferred {
            Some(s) => s@,
            None => "/bin/zsh"@,
        }),
{
    match preferred {
        Some(s) => s,
        None => "/bin/zsh".to_owned(),
    }
}

/// The arguments of the local shell invocation: always login-interactive;
/// with a one-shot startup command the child runs the command and then
/// re-execs an interactive shell in its place, so the terminal stays open
/// after the command finishes.
pub open spec fn spec_local_shell_args(shell: Seq<char>, command: Option<Seq<char>>) -> Seq<
    Seq<char>,
> {
    match command {
        None => seq!["-l"@, "-i"@],
        Some(c) => seq!["-l"@, "-i"@, "-c"@, c + "; exec "@ + shell + " -l -i"@],
    }
}

/// Builds the argument list for the local shell child.
pub fn local_shell_args(shell: &str, command: &Option<String>) -> (r: Vec<String>)
    ensures
        views_of(r@) == spec_local_shell_args(shell@, opt_view(*command)),
{
    let mut args: Vec<String> = Vec::new();
    args.push("-l".to_owned());
    args.push("-i".to_owned());
    match command {
        None => {
            proof {
                assert(views_of(args@) =~= spec_local_shell_args(shell@, opt_view(*command)));
            }
        }
        Some(c) => {
            args.push("-c".to_owned());
            let mut oneshot = c.clone();
            oneshot.append("; exec ");
            oneshot.append(shell);
            oneshot.append(" -l -i");
            args.push(oneshot);
            proof {
                assert(views_of(args@) =~= spec_local_shell_args(shell@, opt_view(*command)));
            }
        }
    }
    args
}

/// `user@host`, the secure-shell destination.
pub open spec fn spec_ssh_destination(user: Seq<char>, host: Seq<char>) -> Seq<char> {
    user + "@"@ + host
}

/// Builds the `user@host` destination.
pub fn ssh_destination(user: &str, host: &str) -> (r: String)
    ensures
        r@ == spec_ssh_destination(user@, host@),
{
    let mut s = user.to_owned();
    s.append("@");
    s.append(host);
    s
}

/// The secure-shell arguments used for one-off remote commands: batch mode,
/// a bounded connection timeout, first-connection host keys auto-accepted,
/// the port, the optional identity file, and the destination.
pub open spec fn spec_build_ssh_args(
    host: Seq<char>,
    port: u16,
    user: Seq<char>,
    key: Option<Seq<char>>,
) -> Seq<Seq<char>> {
    let base = seq![
        "-o"@,
        "BatchMode=yes"@,
        "-o"@,
        "ConnectTimeout=30"@,
        "-o"@,
        "StrictHostKeyChecking=accept-new"@,
        "-p"@,
        spec_udec(port as nat),
    ];
    let keyed = match key {
        None => base,
        Some(k) => base + seq!["-i"@, k],
    };
    keyed + seq![spec_ssh_destination(user, host)]
}

/// Builds the secure-shell argument list for one-off remote commands.
pub fn build_ssh_args(host: &str, port: u16, user: &str, key_path: Option<&str>) -> (r: Vec<
    String,
>)
    ensures
        views_of(r@) == spec_build_ssh_args(
            host@,
            port,
            user@,
            match key_path {
                None => None,
                Some(k) => Some(k@),
            },
        ),
{
    let mut args: Vec<String> = Vec::new();
    args.push("-o".to_owned());
    args.push("BatchMode=yes".to_owned());
    args.push("-o".to_owned());
    args.push("ConnectTimeout=30".to_owned());
    args.push("-o".to_owned());
    args.push("StrictHostKeyChecking=accept-new".to_owned());
    args.push("-p".to_owned());
    args.push(u64_to_dec(port as u64));
    match key_path {
        None => {},
        Some(k) => {
            args.push("-i".to_owned());
            args.push(k.to_owned());
        }
    }
    args.push(ssh_destination(user, host));
    proof {
        assert(views_of(args@) =~= spec_build_ssh_args(
            host@,
            port,
            user@,
            match key_path {
                None => None,
                Some(k) => Some(k@),
            },
        ));
    }
    args
}

/// The command run on the remote host: attach to the multiplexer session of
/// the given name in the given directory, creating it if absent, optionally
/// running a command on first creation. Attaching rather than creating is
/// what makes the remote state durable across local disconnects.
pub open spec fn spec_tmux_attach_command(
    session: Seq<char>,
    remote_cwd: Seq<char>,
    command: Option<Seq<char>>,
) -> Seq<char> {
    let base = "tmux new-session -A -s '"@ + session + "' -c '"@ + remote_cwd;
    match command {
        None => base + "'"@,
        Some(c) => base + "' '"@ + c + "'"@,
    }
}

/// Builds the remote multiplexer attach-or-create command.
pub fn tmux_attach_command(session: &str, remote_cwd: &str, command: &Option<String>) -> (r:
    String)
    ensures
        r@ == spec_tmux_attach_command(session@, remote_cwd@, opt_view(*command)),
{
    let mut s = "tmux new-session -A -s '".to_owned();
    s.append(session);
    s.append("' -c '");
    s.append(remote_cwd);
    match command {
        None => {
            s.append("'");
            proof {
                assert(s@ =~= spec_tmux_attach_command(session@, remote_cwd@, opt_view(*command)));
            }
        }
        Some(c) => {
            s.append("' '");
            s.append(c.as_str());
            s.append("'");
            proof {
                assert(s@ =~= spec_tmux_attach_command(session@, remote_cwd@, opt_view(*command)));
            }
        }
    }
    s
}

/// The secure-shell arguments of the remote bridge itself: a forced
/// pseudo-terminal, first-connection host keys auto-accepted, the port, the
/// optional identity file, the destination, and the multiplexer attach
/// command.
pub open spec fn spec_remote_bridge_args(
    host: Seq<char>,
    port: u16,
    user: Seq<char>,
    key: Option<Seq<char>>,
    attach: Seq<char>,
) -> Seq<Seq<char>> {
    let base = seq![
        "-t"@,
        "-o"@,
        "StrictHostKeyChecking=accept-new"@,
        "-p"@,
        spec_udec(port as nat),
    ];
    let keyed = match key {
        None => base,
        Some(k) => base + seq!["-i"@, k],
    };
    keyed + seq![spec_ssh_destination(user, host), attach]
}

/// The opening clause of the remote attach command, determined by the
/// multiplexer session name alone.
pub open spec fn spec_attach_prefix(session: Seq<char>) -> Seq<char> {
    "tmux new-session -A -s '"@ + session
}

/// Law: every remote attach command opens with the attach-or-create clause
/// naming its multiplexer session, whatever the directory or startup
/// command. Two `spawn_remote` calls that reuse one session name — a
/// disconnect followed by a reconnect — therefore address the same remote
/// session, whose state lives on in the multiplexer between them.
pub proof fn lemma_reattach_targets_same_session(
    session: Seq<char>,
    remote_cwd: Seq<char>,
    command: Option<Seq<char>>,
)
    ensures
        spec_tmux_attach_command(session, remote_cwd, command).take(
            spec_attach_prefix(session).len() as int,
        ) == spec_attach_prefix(session),
{
    let pre = spec_attach_prefix(session);
    let full = spec_tmux_attach_command(session, remote_cwd, command);
    assert(full.take(pre.len() as int) =~= pre);
}

/// Builds the argument list of the remote bridge's secure-shell child.
pub fn remote_bridge_args(
    host: &str,
    port: u16,
    user: &str,
    key_path: &Option<String>,
    attach: String,
) -> (r: Vec<String>)
    ensures
        views_of(r@) == spec_remote_bridge_args(host@, port, user@, opt_view(*key_path), attach@),
{
    let ghost attach_view = attach@;
    let mut args: Vec<String> = Vec::new();
    args.push("-t".to_owned());
    args.push("-o".to_owned());
    args.push("StrictHostKeyChecking=accept-new".to_owned());
    args.push("-p".to_owned());
    args.push(u64_to_dec(port as u64));
    match key_path {
        None => {},
        Some(k) => {
            args.push("-i".to_owned());
            args.push(k.as_str().to_owned());
        }
    }
    args.push(ssh_destination(user, host));
    args.push(attach);
    proof {
        assert(views_of(args@) =~= spec_remote_bridge_args(
            host@,
            port,
            user@,
            opt_view(*key_path),
            attach_view,
        ));
    }
    args
}

} // verus!
