//! Trusted boundary to the OS pseudo-terminal layer.
//!
//! Each resource of one terminal session — the control end, the input channel,
//! the child process and the read side — is held in an opaque handle of its
//! own, and every call into portable-pty goes through one small wrapper here.
//! Nothing else in the crate touches the OS terminal.

use vstd::prelude::*;

verus! {

/// Largest number of bytes one blocking read hands back.
pub const READ_BUF_LEN: usize = 65536;

/// The control (master) end of one pseudo-terminal pair; resizing goes
/// through it.
#[verifier::external_body]
pub struct PtyMaster {
    inner: Box<dyn portable_pty::MasterPty + Send>,
}

/// The slave end of the pair, consumed to spawn the child process into the
/// terminal.
#[verifier::external_body]
pub struct PtySlave {
    inner: Box<dyn portable_pty::SlavePty + Send>,
}

/// The child process driven by the terminal.
#[verifier::external_body]
pub struct PtyChild {
    inner: Box<dyn portable_pty::Child + Send + Sync>,
}

/// The input channel into the child.
#[verifier::external_body]
pub struct PtyWriter {
    inner: Box<dyn std::io::Write + Send>,
}

/// The read side of the terminal; owned by exactly one reader loop.
#[verifier::external_body]
pub struct PtyReader {
    inner: Box<dyn std::io::Read + Send>,
}

#[verifier::external_type_specification]
#[verifier::external_body]
pub struct ExCommandBuilder(portable_pty::CommandBuilder);

/// Relies on `CommandBuilder::new`: a builder for the given program, with no
/// arguments yet.
#[verifier::external_body]
pub(crate) fn cmd_new(program: &str) -> portable_pty::CommandBuilder {
    portable_pty::CommandBuilder::new(program)
}

/// Relies on `CommandBuilder::arg`: appends one argument to the builder.
#[verifier::external_body]
pub(crate) fn cmd_arg(cmd: &mut portable_pty::CommandBuilder, arg: &str) {
    cmd.arg(arg);
}

/// Relies on `CommandBuilder::cwd`: sets the working directory the child
/// starts in.
#[verifier::external_body]
pub(crate) fn cmd_cwd(cmd: &mut portable_pty::CommandBuilder, dir: &str) {
    cmd.cwd(dir);
}

/// Relies on `CommandBuilder::env`: sets one environment variable for the
/// child.
#[verifier::external_body]
pub(crate) fn cmd_env(cmd: &mut portable_pty::CommandBuilder, key: &str, value: &str) {
    cmd.env(key, value);
}

/// Relies on `native_pty_system` and `PtySystem::openpty`: allocates a fresh
/// pseudo-terminal pair sized `cols` by `rows`, or reports the OS failure.
#[verifier::external_body]
pub(crate) fn open_pty(cols: u16, rows: u16) -> Result<(PtyMaster, PtySlave), String> {
    let system = portable_pty::native_pty_system();
    let size = portable_pty::PtySize { rows, cols, pixel_width: 0, pixel_height: 0 };
    match system.openpty(size) {
        Ok(pair) => Ok((PtyMaster { inner: pair.master }, PtySlave { inner: pair.slave })),
        Err(e) => Err(e.to_string()),
    }
}

/// Relies on `SlavePty::spawn_command`: starts the built command as the child
/// of the terminal, or reports the spawn failure.
#[verifier::external_body]
pub(crate) fn spawn_child(
    slave: PtySlave,
    cmd: portable_pty::CommandBuilder,
) -> Result<PtyChild, String> {
    match slave.inner.spawn_command(cmd) {
        Ok(child) => Ok(PtyChild { inner: child }),
        Err(e) => Err(e.to_string()),
    }
}

/// Relies on `MasterPty::try_clone_reader`: a readable handle on the
/// terminal's output stream.
#[verifier::external_body]
pub(crate) fn clone_reader(master: &PtyMaster) -> Result<PtyReader, String> {
    match master.inner.try_clone_reader() {
        Ok(reader) => Ok(PtyReader { inner: reader }),
        Err(e) => Err(e.to_string()),
    }
}

/// Relies on `MasterPty::take_writer`: the writable handle into the child;
/// errs when taken a second time from the same master.
#[verifier::external_body]
pub(crate) fn take_writer(master: &PtyMaster) -> Result<PtyWriter, String> {
    match master.inner.take_writer() {
        Ok(writer) => Ok(PtyWriter { inner: writer }),
        Err(e) => Err(e.to_string()),
    }
}

/// Relies on `MasterPty::resize`: tells the kernel the new terminal
/// dimensions and signals the child.
#[verifier::external_body]
pub(crate) fn resize_master(master: &PtyMaster, cols: u16, rows: u16) -> Result<(), String> {
    let size = portable_pty::PtySize { rows, cols, pixel_width: 0, pixel_height: 0 };
    match master.inner.resize(size) {
        Ok(()) => Ok(()),
        Err(e) => Err(e.to_string()),
    }
}

/// Relies on `std::io::Write::write_all`: writes the whole payload into the
/// child's input, or reports the I/O error.
#[verifier::external_body]
pub(crate) fn write_all_bytes(writer: &mut PtyWriter, data: &str) -> Result<(), String> {
    match writer.inner.write_all(data.as_bytes()) {
        Ok(()) => Ok(()),
        Err(e) => Err(e.to_string()),
    }
}

/// Relies on `std::io::Write::flush`: pushes buffered input through to the
/// child.
#[verifier::external_body]
pub(crate) fn flush_writer(writer: &mut PtyWriter) -> Result<(), String> {
    match writer.inner.flush() {
        Ok(()) => Ok(()),
        Err(e) => Err(e.to_string()),
    }
}

/// Relies on `ChildKiller::kill`: requests termination of the child and does
/// not wait for it; a failure is deliberately dropped, as a kill is
/// fire-and-forget.
#[verifier::external_body]
pub(crate) fn kill_child(child: &mut PtyChild) {
    let _ = child.inner.kill();
}

/// Relies on `std::io::Read::read`: one blocking read from the terminal,
/// handing back at most `READ_BUF_LEN` bytes; an empty result is
/// end-of-stream.
#[verifier::external_body]
pub(crate) fn read_chunk(reader: &mut PtyReader) -> (r: Result<Vec<u8>, String>)
    ensures
        r matches Ok(data) ==> data@.len() <= READ_BUF_LEN,
{
    let mut buf = vec![0u8; READ_BUF_LEN];
    match reader.inner.read(&mut buf) {
        Ok(n) => {
            buf.truncate(n);
            Ok(buf)
        }
        Err(e) => Err(e.to_string()),
    }
}

} // verus!
