//! The decisions of the process runner.
//!
//! The host creates the child process and waits for it. This module says how the
//! process is to be launched, and what the caller gets back for everything the
//! host can observe of it.

use vstd::prelude::*;
use vstd::utf8::{decode_utf8, valid_utf8};
use crate::text::{decode_lossy, joined, lossy_text};

verus! {

/// Seconds an attached command may run before the caller is told that it
/// timed out.
pub const TIMEOUT_SECS: u64 = 30;

/// How the host launches one command line.
#[derive(Debug, PartialEq, Eq)]
pub struct LaunchPlan {
    /// The command interpreter.
    pub program: String,
    /// Its arguments: the flag that makes it read a command line, then the line.
    pub args: Vec<String>,
    /// Detached: the streams go to null and nobody waits. Attached: the output
    /// is captured and the wait ends after `TIMEOUT_SECS`.
    pub detached: bool,
}

/// The command interpreter of the platform.
pub open spec fn shell_program(windows: bool) -> Seq<char> {
    if windows {
        "cmd"@
    } else {
        "sh"@
    }
}

/// The flag that makes the interpreter run the argument after it.
pub open spec fn shell_flag(windows: bool) -> Seq<char> {
    if windows {
        "/C"@
    } else {
        "-c"@
    }
}

/// Plans the launch of `command`: through `cmd /C` on Windows, through `sh -c`
/// elsewhere. The line is passed on unchanged, an empty one too.
pub fn plan_launch(windows: bool, command: &str, detached: bool) -> (plan: LaunchPlan)
    ensures
        plan.program@ == shell_program(windows),
        plan.args@.len() == 2,
        plan.args@[0]@ == shell_flag(windows),
        plan.args@[1]@ == command@,
        plan.detached == detached,
{
    let mut args: Vec<String> = Vec::new();
    if windows {
        args.push(String::from_str("/C"));
        args.push(String::from_str(command));
        LaunchPlan { program: String::from_str("cmd"), args, detached }
    } else {
        args.push(String::from_str("-c"));
        args.push(String::from_str(command));
        LaunchPlan { program: String::from_str("sh"), args, detached }
    }
}

/// What the host observed of an attached command.
#[derive(Debug, PartialEq, Eq)]
pub enum SyncEvent {
    /// The process ran to its end within the time limit.
    Exited { success: bool, stdout: Vec<u8>, stderr: Vec<u8> },
    /// The operating system could not create the process; its message.
    LaunchFailed(String),
    /// The worker that was to run the process failed; its message.
    WorkerFailed(String),
    /// The time limit passed before the process ended.
    TimedOut,
}

/// What the host observed of a detached command.
#[derive(Debug, PartialEq, Eq)]
pub enum DetachedEvent {
    /// The operating system created the process.
    Started,
    /// The operating system could not create the process; its message.
    LaunchFailed(String),
}

/// A textual result as contracts see it.
pub open spec fn text_result(result: Result<String, String>) -> Result<Seq<char>, Seq<char>> {
    match result {
        Ok(text) => Ok(text@),
        Err(text) => Err(text@),
    }
}

/// The result of a process that ended: its output if it succeeded, else a
/// failure that carries what it wrote to standard error.
pub open spec fn exit_outcome(success: bool, stdout: Seq<char>, stderr: Seq<char>) -> Result<
    Seq<char>,
    Seq<char>,
> {
    if success {
        Ok(stdout)
    } else {
        Err("Command failed: "@ + stderr)
    }
}

/// The text of a launch failure, in either mode: the message of the operating
/// system behind "Failed to start command: ".
pub open spec fn launch_failure(reason: Seq<char>) -> Seq<char> {
    "Failed to start command: "@ + reason
}

/// The result of an attached command, for each thing the host can observe.
pub open spec fn sync_outcome(event: SyncEvent) -> Result<Seq<char>, Seq<char>> {
    match event {
        SyncEvent::Exited { success, stdout, stderr } => exit_outcome(
            success,
            lossy_text(stdout@),
            lossy_text(stderr@),
        ),
        SyncEvent::LaunchFailed(reason) => Err(launch_failure(reason@)),
        SyncEvent::WorkerFailed(reason) => Err("Task error: "@ + reason@),
        SyncEvent::TimedOut => Err("Command timed out after 30 seconds"@),
    }
}

/// The result of a detached command: success as soon as the process exists,
/// with nothing said of how it will end.
pub open spec fn detached_outcome(event: DetachedEvent) -> Result<Seq<char>, Seq<char>> {
    match event {
        DetachedEvent::Started => Ok("Process started successfully in background"@),
        DetachedEvent::LaunchFailed(reason) => Err(launch_failure(reason@)),
    }
}

/// The text of a launch failure.
fn launch_failure_text(reason: &str) -> (text: String)
    ensures
        text@ == launch_failure(reason@),
{
    joined("Failed to start command: ", reason)
}

/// The result of a process that ended, from its exit status and its decoded
/// streams.
pub fn exit_result(success: bool, stdout: String, stderr: String) -> (result: Result<
    String,
    String,
>)
    ensures
        text_result(result) == exit_outcome(success, stdout@, stderr@),
{
    if success {
        Ok(stdout)
    } else {
        Err(joined("Command failed: ", stderr.as_str()))
    }
}

/// The result of an attached command. Both streams are decoded leniently, so
/// no byte sequence makes this fail, and a stream that is valid UTF-8 comes
/// back as the text that it encodes.
pub fn sync_result(event: SyncEvent) -> (result: Result<String, String>)
    ensures
        text_result(result) == sync_outcome(event),
        event matches SyncEvent::Exited { success, stdout, stderr } ==> {
            &&& success && valid_utf8(stdout@) ==> text_result(result) == Ok::<Seq<char>, Seq<char>>(
                decode_utf8(stdout@),
            )
            &&& !success && valid_utf8(stderr@) ==> text_result(result) == Err::<Seq<char>, Seq<char>>(
                "Command failed: "@ + decode_utf8(stderr@),
            )
        },
{
    match event {
        SyncEvent::Exited { success, stdout, stderr } => {
            let out = decode_lossy(stdout.as_slice());
            let err = decode_lossy(stderr.as_slice());
            exit_result(success, out, err)
        },
        SyncEvent::LaunchFailed(reason) => Err(launch_failure_text(reason.as_str())),
        SyncEvent::WorkerFailed(reason) => Err(joined("Task error: ", reason.as_str())),
        SyncEvent::TimedOut => Err(String::from_str("Command timed out after 30 seconds")),
    }
}

/// The result of a detached command.
pub fn detached_result(event: DetachedEvent) -> (result: Result<String, String>)
    ensures
        text_result(result) == detached_outcome(event),
{
    match event {
        DetachedEvent::Started => Ok(String::from_str("Process started successfully in background")),
        DetachedEvent::LaunchFailed(reason) => Err(launch_failure_text(reason.as_str())),
    }
}

} // verus!
