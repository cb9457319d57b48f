//! The session manager: a registry of live terminal sessions and the
//! lifecycle operations over it.
//!
//! The registry maps a caller-chosen session id to the exclusively-owned
//! resources of one terminal (control end, input channel, child process).
//! Every operation looks an id up in the registry and then performs its I/O
//! on the owned handle; the contracts pin down exactly how each operation
//! changes the set of registered ids.

use vstd::prelude::*;
use vstd::string::StringExecFns;

use crate::cmdline::{local_shell_args, remote_bridge_args, tmux_attach_command};
use crate::codec::{b64_of, encode_chunk};
use crate::pty::{
    clone_reader, cmd_arg, cmd_cwd, cmd_env, cmd_new, flush_writer, kill_child, open_pty,
    read_chunk, resize_master, spawn_child, take_writer, write_all_bytes, PtyChild, PtyMaster,
    PtyReader, PtyWriter, READ_BUF_LEN,
};

verus! {

/// The exclusively-owned resource bundle of one live terminal: the control
/// end of the pseudo-terminal pair, the input channel into the child, and
/// the child process itself. The handle is the sole owner of all three.
pub struct SessionHandle {
    master: PtyMaster,
    writer: PtyWriter,
    child: PtyChild,
}

struct SessionEntry {
    id: String,
    handle: SessionHandle,
}

/// The session registry and the lifecycle operations over it. One value of
/// this type owns every live session; callers that share it across threads
/// wrap it in their own synchronization.
pub struct SessionManager {
    shell: String,
    entries: Vec<SessionEntry>,
}

impl SessionManager {
    /// The ids of the registered sessions, in registration order.
    pub closed spec fn ids_seq(self) -> Seq<Seq<char>> {
        self.entries@.map_values(|e: SessionEntry| e.id@)
    }

    /// The set of registered session ids: the registry's observable state.
    pub closed spec fn sessions(self) -> Set<Seq<char>> {
        self.ids_seq().to_set()
    }

    /// At most one registry entry per id.
    pub closed spec fn wf(self) -> bool {
        self.ids_seq().no_duplicates()
    }

    /// The shell program local sessions are started with.
    pub closed spec fn shell_program(self) -> Seq<char> {
        self.shell@
    }

    /// A manager with an empty registry, driving local sessions with the
    /// given shell program.
    pub fn new(shell: String) -> (r: SessionManager)
        ensures
            r.wf(),
            r.sessions() == Set::<Seq<char>>::empty(),
            r.shell_program() == shell@,
    {
        let m = SessionManager { shell, entries: Vec::new() };
        proof {
            assert(m.sessions() =~= Set::<Seq<char>>::empty());
        }
        m
    }

    fn find_index(&self, id: &str) -> (r: Option<usize>)
        ensures
            r matches Some(i) ==> i < self.entries@.len() && self.entries@[i as int].id@ == id@
                && self.sessions().contains(id@),
            r is None ==> !self.sessions().contains(id@),
    {
        let n = self.entries.len();
        let mut i: usize = 0;
        while i < n
            invariant
                n == self.entries@.len(),
                i <= n,
                forall|j: int| 0 <= j < i ==> self.entries@[j].id@ != id@,
            decreases n - i,
        {
            if crate::text::str_eq(self.entries[i].id.as_str(), id) {
                proof {
                    assert(self.ids_seq()[i as int] == id@);
                    assert(self.ids_seq().contains(id@));
                }
                return Some(i);
            }
            i += 1;
        }
        proof {
            assert(forall|j: int| 0 <= j < self.ids_seq().len() ==> self.ids_seq()[j] != id@);
            assert(!self.ids_seq().contains(id@));
        }
        None
    }

    /// The number of live registered sessions.
    pub fn count(&self) -> (n: usize)
        requires
            self.wf(),
        ensures
            n == self.sessions().len(),
    {
        proof {
            self.ids_seq().unique_seq_to_set();
        }
        self.entries.len()
    }

    /// The ids of the live registered sessions.
    pub fn list(&self) -> (r: Vec<String>)
        requires
            self.wf(),
        ensures
            crate::text::views_of(r@) == self.ids_seq(),
            crate::text::views_of(r@).to_set() == self.sessions(),
            crate::text::views_of(r@).no_duplicates(),
            r@.len() == self.sessions().len(),
    {
        proof {
            self.ids_seq().unique_seq_to_set();
        }
        let n = self.entries.len();
        let mut out: Vec<String> = Vec::new();
        let mut i: usize = 0;
        while i < n
            invariant
                n == self.entries@.len(),
                i <= n,
                out@.len() == i,
                forall|j: int| 0 <= j < i ==> out@[j]@ == self.entries@[j].id@,
            decreases n - i,
        {
            out.push(self.entries[i].id.clone());
            i += 1;
        }
        proof {
            assert(crate::text::views_of(out@) =~= self.ids_seq());
        }
        out
    }

    fn insert_handle(&mut self, id: String, handle: SessionHandle)
        requires
            old(self).wf(),
        ensures
            final(self).wf(),
            final(self).sessions() == old(self).sessions().insert(id@),
            final(self).shell_program() == old(self).shell_program(),
    {
        let ghost old_ids = self.ids_seq();
        match self.find_index(id.as_str()) {
            Some(i) => {
                let entry = &mut self.entries[i];
                *entry = SessionEntry { id, handle };
                proof {
                    assert(self.ids_seq() =~= old_ids);
                    assert(old_ids.contains(old_ids[i as int]));
                    assert(self.sessions() =~= old(self).sessions().insert(old_ids[i as int]));
                }
            }
            None => {
                let ghost idv = id@;
                self.entries.push(SessionEntry { id, handle });
                proof {
                    assert(self.ids_seq() =~= old_ids.push(idv));
                    lemma_push_unique(old_ids, idv);
                    assert(self.sessions() =~= old(self).sessions().insert(idv));
                }
            }
        }
    }

    /// Writes the payload into the session's input channel and flushes it.
    /// An id absent from the registry is a deliberate no-op success: a
    /// caller racing a kill against an in-flight write must not see an
    /// error.
    pub fn write(&mut self, id: &str, data: &str) -> (r: Result<(), String>)
        requires
            old(self).wf(),
        ensures
            final(self).wf(),
            final(self).sessions() == old(self).sessions(),
            final(self).shell_program() == old(self).shell_program(),
            !old(self).sessions().contains(id@) ==> r is Ok,
    {
        let ghost old_ids = self.ids_seq();
        match self.find_index(id) {
            None => Ok(()),
            Some(i) => {
                let entry = &mut self.entries[i];
                let res = write_all_bytes(&mut entry.handle.writer, data);
                let r = match res {
                    Ok(()) => flush_writer(&mut entry.handle.writer),
                    Err(e) => Err(e),
                };
                proof {
                    assert(self.ids_seq() =~= old_ids);
                    assert(self.sessions() =~= old(self).sessions());
                }
                r
            }
        }
    }

    /// Applies new dimensions to the session's terminal. An id absent from
    /// the registry is a deliberate no-op success, as for `write`.
    pub fn resize(&self, id: &str, cols: u16, rows: u16) -> (r: Result<(), String>)
        requires
            self.wf(),
        ensures
            !self.sessions().contains(id@) ==> r is Ok,
    {
        match self.find_index(id) {
            None => Ok(()),
            Some(i) => resize_master(&self.entries[i].handle.master, cols, rows),
        }
    }

    /// Removes the session from the registry and requests termination of its
    /// child without waiting for it. Always succeeds: killing an absent id
    /// is a no-op, and the termination request itself is fire-and-forget.
    /// The reader loop of the killed session stops on its own, once its read
    /// side observes the closed terminal.
    pub fn kill(&mut self, id: &str) -> (r: Result<(), String>)
        requires
            old(self).wf(),
        ensures
            r is Ok,
            final(self).wf(),
            final(self).sessions() == old(self).sessions().remove(id@),
            final(self).shell_program() == old(self).shell_program(),
    {
        let ghost old_ids = self.ids_seq();
        match self.find_index(id) {
            None => {
                proof {
                    assert(final(self).sessions() =~= old(self).sessions().remove(id@));
                }
                Ok(())
            }
            Some(i) => {
                let mut entry = self.entries.remove(i);
                kill_child(&mut entry.handle.child);
                proof {
                    assert(self.ids_seq() =~= old_ids.remove(i as int));
                    lemma_remove_unique(old_ids, i as int);
                    assert(old_ids[i as int] == id@);
                    assert(self.sessions() =~= old(self).sessions().remove(id@));
                }
                Ok(())
            }
        }
    }

    /// Drains the whole registry, requesting termination of every child.
    pub fn kill_all(&mut self) -> (r: Result<(), String>)
        requires
            old(self).wf(),
        ensures
            r is Ok,
            final(self).wf(),
            final(self).sessions() == Set::<Seq<char>>::empty(),
            final(self).shell_program() == old(self).shell_program(),
    {
        while self.entries.len() > 0
            invariant
                self.shell == old(self).shell,
            decreases self.entries@.len(),
        {
            let popped = self.entries.pop();
            match popped {
                Some(mut entry) => kill_child(&mut entry.handle.child),
                None => {}
            }
        }
        proof {
            assert(self.sessions() =~= Set::<Seq<char>>::empty());
        }
        Ok(())
    }

    /// Spawns a local login-interactive shell session: allocates a terminal
    /// pair sized `cols` by `rows`, starts the shell in `cwd` (running the
    /// optional one-shot command first, then re-execing an interactive
    /// shell), registers the handle under `id`, and hands back the read side
    /// for the session's reader loop. A failure to allocate the terminal or
    /// to start the child is reported to the caller and leaves no handle
    /// registered. A spawn that reuses a live id replaces the registry entry
    /// without terminating the previous child: callers kill the old session
    /// first.
    pub fn spawn(
        &mut self,
        id: String,
        cwd: &str,
        cols: u16,
        rows: u16,
        command: &Option<String>,
    ) -> (r: Result<PtyReader, String>)
        requires
            old(self).wf(),
            cols > 0,
            rows > 0,
        ensures
            final(self).wf(),
            final(self).shell_program() == old(self).shell_program(),
            r is Ok ==> final(self).sessions() == old(self).sessions().insert(id@),
            r is Err ==> *final(self) == *old(self),
    {
        let args = local_shell_args(self.shell.as_str(), command);
        let (master, slave) = match open_pty(cols, rows) {
            Ok(p) => p,
            Err(e) => {
                return Err(e);
            }
        };
        let mut cmd = cmd_new(self.shell.as_str());
        let nargs = args.len();
        let mut i: usize = 0;
        while i < nargs
            invariant
                nargs == args@.len(),
                i <= nargs,
            decreases nargs - i,
        {
            cmd_arg(&mut cmd, args[i].as_str());
            i += 1;
        }
        cmd_cwd(&mut cmd, cwd);
        cmd_env(&mut cmd, "TERM", "xterm-256color");
        let child = match spawn_child(slave, cmd) {
            Ok(c) => c,
            Err(e) => {
                return Err(e);
            }
        };
        let reader = match clone_reader(&master) {
            Ok(x) => x,
            Err(e) => {
                return Err(e);
            }
        };
        let writer = match take_writer(&master) {
            Ok(w) => w,
            Err(e) => {
                return Err(e);
            }
        };
        self.insert_handle(id, SessionHandle { master, writer, child });
        Ok(reader)
    }

    /// Spawns a remote bridge session: allocates a terminal pair as `spawn`
    /// does, but starts a secure-shell client that forces terminal
    /// allocation, auto-accepts unknown host keys on first connection, and
    /// runs the remote attach-or-create command for the named multiplexer
    /// session in `remote_cwd`. The remote multiplexer, not this process,
    /// keeps the remote shell state alive: a later spawn with the same
    /// session name reattaches to the same state. Registry effects and
    /// failure behaviour are those of `spawn`.
    pub fn spawn_remote(
        &mut self,
        id: String,
        host: &str,
        port: u16,
        user: &str,
        key_path: &Option<String>,
        remote_cwd: &str,
        session_name: &str,
        command: &Option<String>,
        cols: u16,
        rows: u16,
    ) -> (r: Result<PtyReader, String>)
        requires
            old(self).wf(),
            cols > 0,
            rows > 0,
        ensures
            final(self).wf(),
            final(self).shell_program() == old(self).shell_program(),
            r is Ok ==> final(self).sessions() == old(self).sessions().insert(id@),
            r is Err ==> *final(self) == *old(self),
    {
        let attach = tmux_attach_command(session_name, remote_cwd, command);
        let args = remote_bridge_args(host, port, user, key_path, attach);
        let (master, slave) = match open_pty(cols, rows) {
            Ok(p) => p,
            Err(e) => {
                return Err(e);
            }
        };
        let mut cmd = cmd_new("ssh");
        let nargs = args.len();
        let mut i: usize = 0;
        while i < nargs
            invariant
                nargs == args@.len(),
                i <= nargs,
            decreases nargs - i,
        {
            cmd_arg(&mut cmd, args[i].as_str());
            i += 1;
        }
        cmd_env(&mut cmd, "TERM", "xterm-256color");
        let child = match spawn_child(slave, cmd) {
            Ok(c) => c,
            Err(e) => {
                return Err(e);
            }
        };
        let reader = match clone_reader(&master) {
            Ok(x) => x,
            Err(e) => {
                return Err(e);
            }
        };
        let writer = match take_writer(&master) {
            Ok(w) => w,
            Err(e) => {
                return Err(e);
            }
        };
        self.insert_handle(id, SessionHandle { master, writer, child });
        Ok(reader)
    }
}

/// One output event of a session's reader loop: the channel the event is
/// published on (scoped by the session id) and the transport-encoded chunk.
pub struct OutputEvent {
    pub channel: String,
    pub payload: String,
}

/// The channel a session's output events are published on.
pub open spec fn spec_event_channel(id: Seq<char>) -> Seq<char> {
    "pty-output-"@ + id
}

/// Builds the event channel name for a session id.
pub fn event_channel(id: &str) -> (r: String)
    ensures
        r@ == spec_event_channel(id@),
{
    let mut s = "pty-output-".to_owned();
    s.append(id);
    s
}

/// What the reader loop does with the outcome of one successful read: an
/// empty read is end-of-stream and yields nothing, stopping the loop; a
/// non-empty chunk yields exactly one event on the session's channel,
/// carrying that chunk transport-encoded.
pub fn event_of(data: Vec<u8>, id: &str) -> (r: Option<OutputEvent>)
    ensures
        data@.len() == 0 ==> r is None,
        data@.len() > 0 ==> (r matches Some(e) && e.channel@ == spec_event_channel(id@)
            && e.payload@ == b64_of(data@)),
{
    if data.len() == 0 {
        None
    } else {
        let payload = encode_chunk(data.as_slice());
        Some(OutputEvent { channel: event_channel(id), payload })
    }
}

/// One step of a session's reader loop: one blocking read from the read
/// side. A read error yields `None` and stops the loop, never surfacing to
/// any caller; what a successful read yields — one event carrying the
/// chunk's encoding, or nothing at end-of-stream — is pinned down by
/// [`event_of`], which this step hands the read bytes to. Chunks are handed
/// out in exactly the order they are read.
pub fn next_event(reader: &mut PtyReader, id: &str) -> (r: Option<OutputEvent>)
    ensures
        r matches Some(e) ==> e.channel@ == spec_event_channel(id@) && (exists|c: Seq<u8>|
            1 <= c.len() <= READ_BUF_LEN && e.payload@ == #[trigger] b64_of(c)),
{
    match read_chunk(reader) {
        Err(_) => None,
        Ok(data) => {
            let ghost dv = data@;
            let r = event_of(data, id);
            proof {
                match &r {
                    Some(e) => {
                        assert(1 <= dv.len() <= READ_BUF_LEN && e.payload@ == b64_of(dv));
                    }
                    None => {}
                }
            }
            r
        }
    }
}

/// Law: spawning twice with the same id leaves the registry with exactly
/// one entry for that id — the id set after two consecutive insertions of
/// one id equals the set after one, it contains the id, and the second
/// insertion does not grow it. Composed with `spawn`'s postcondition (the
/// new id set is `old.insert(id)`, well-formed, so one entry per id) this
/// pins the registry state after a re-spawn; the displaced handle's child
/// is deliberately not terminated (see `spawn`).
pub proof fn lemma_respawn_single_entry(s: Set<Seq<char>>, id: Seq<char>)
    ensures
        s.insert(id).insert(id) == s.insert(id),
        s.insert(id).contains(id),
        s.insert(id).insert(id).len() == s.insert(id).len(),
{
    assert(s.insert(id).insert(id) =~= s.insert(id));
}

/// Law: after `kill_all` the registry is empty, so `count` reports zero —
/// `kill_all` ensures the session set is the empty set, and `count` reports
/// that set's cardinality.
pub proof fn lemma_count_after_kill_all()
    ensures
        Set::<Seq<char>>::empty().len() == 0,
{
}

proof fn lemma_push_unique(s: Seq<Seq<char>>, x: Seq<char>)
    requires
        s.no_duplicates(),
        !s.contains(x),
    ensures
        s.push(x).no_duplicates(),
        s.push(x).to_set() =~= s.to_set().insert(x),
{
    let t = s.push(x);
    assert forall|i: int, j: int|
        0 <= i < t.len() && 0 <= j < t.len() && i != j implies t[i] != t[j] by {
        if i < s.len() && j < s.len() {
            assert(t[i] == s[i] && t[j] == s[j]);
        } else if i == s.len() {
            assert(t[i] == x && t[j] == s[j]);
            if s[j] == x {
                assert(s.contains(x));
            }
        } else {
            assert(t[j] == x && t[i] == s[i]);
            if s[i] == x {
                assert(s.contains(x));
            }
        }
    };
    assert forall|y: Seq<char>| #[trigger] t.contains(y) implies s.contains(y) || y == x by {
        let k = choose|k: int| 0 <= k < t.len() && t[k] == y;
        if k < s.len() {
            assert(s[k] == y);
        }
    };
    assert forall|y: Seq<char>| s.contains(y) || y == x implies #[trigger] t.contains(y) by {
        if s.contains(y) {
            let k = choose|k: int| 0 <= k < s.len() && s[k] == y;
            assert(t[k] == y);
        } else {
            assert(t[s.len() as int] == y);
        }
    };
    assert(t.to_set() =~= s.to_set().insert(x));
}

proof fn lemma_remove_unique(s: Seq<Seq<char>>, i: int)
    requires
        s.no_duplicates(),
        0 <= i < s.len(),
    ensures
        s.remove(i).no_duplicates(),
        s.remove(i).to_set() =~= s.to_set().remove(s[i]),
{
    let t = s.remove(i);
    s.remove_ensures(i);
    assert forall|a: int, b: int|
        0 <= a < t.len() && 0 <= b < t.len() && a != b implies t[a] != t[b] by {
        let a0 = if a < i { a } else { a + 1 };
        let b0 = if b < i { b } else { b + 1 };
        assert(t[a] == s[a0] && t[b] == s[b0]);
    };
    assert forall|y: Seq<char>| #[trigger] t.contains(y) implies s.contains(y) && y != s[i] by {
        let k = choose|k: int| 0 <= k < t.len() && t[k] == y;
        let k0 = if k < i { k } else { k + 1 };
        assert(s[k0] == y);
        assert(k0 != i);
    };
    assert forall|y: Seq<char>| s.contains(y) && y != s[i] implies #[trigger] t.contains(y) by {
        let k0 = choose|k0: int| 0 <= k0 < s.len() && s[k0] == y;
        if k0 < i {
            assert(t[k0] == y);
        } else {
            assert(k0 > i);
            assert(t[k0 - 1] == y);
        }
    };
    assert(t.to_set() =~= s.to_set().remove(s[i]));
}

} // verus!
