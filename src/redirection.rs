//! Resolving a command's redirections into where its two output streams go.
//! Opening the files is left to the caller; this decides which file, and how.

use vstd::prelude::*;

use crate::parser::{first_redirect, ParsedCommand};
use crate::token::{FileDescriptor, RedirectMode, Redirection};

verus! {

/// Where one output stream of a command goes.
#[derive(Debug)]
pub enum OutputTarget {
    /// The process's own stream for that descriptor.
    Standard,
    /// A file, created along with its missing parent directories, then
    /// truncated (`Overwrite`) or written at its end (`Append`).
    File { path: String, mode: RedirectMode },
}

/// The target that a redirection, or its absence, gives.
pub open spec fn target_for(r: Option<&Redirection>) -> OutputTarget {
    match r {
        Some(x) => OutputTarget::File { path: x.target, mode: x.mode },
        None => OutputTarget::Standard,
    }
}

fn target_of(r: Option<&Redirection>) -> (t: OutputTarget)
    ensures
        t == target_for(r),
{
    match r {
        Some(x) => OutputTarget::File { path: x.target.clone(), mode: x.mode },
        None => OutputTarget::Standard,
    }
}

/// The two output streams of one command execution.
#[derive(Debug)]
pub struct RedirectionManager {
    stdout: OutputTarget,
    stderr: OutputTarget,
}

impl RedirectionManager {
    /// Where the standard output goes.
    pub closed spec fn stdout_target(&self) -> OutputTarget {
        self.stdout
    }

    /// Where the standard error goes.
    pub closed spec fn stderr_target(&self) -> OutputTarget {
        self.stderr
    }

    /// Both streams to the process's own.
    pub fn new() -> (r: RedirectionManager)
        ensures
            r.stdout_target() == OutputTarget::Standard,
            r.stderr_target() == OutputTarget::Standard,
    {
        RedirectionManager { stdout: OutputTarget::Standard, stderr: OutputTarget::Standard }
    }

    /// Each stream to its redirection's file, or to the process's own stream
    /// when it has none.
    pub fn with_redirections(
        stdout_redirect: Option<&Redirection>,
        stderr_redirect: Option<&Redirection>,
    ) -> (r: RedirectionManager)
        ensures
            r.stdout_target() == target_for(stdout_redirect),
            r.stderr_target() == target_for(stderr_redirect),
    {
        RedirectionManager { stdout: target_of(stdout_redirect), stderr: target_of(stderr_redirect) }
    }

    /// The streams of `command`: for each descriptor the first redirection
    /// on the line that names it wins.
    pub fn for_command(command: &ParsedCommand) -> (r: RedirectionManager)
        ensures
            exists|o: Option<&Redirection>, e: Option<&Redirection>|
                {
                    &&& first_redirect(command.redirections@, FileDescriptor::Stdout, o)
                    &&& first_redirect(command.redirections@, FileDescriptor::Stderr, e)
                    &&& r.stdout_target() == target_for(o)
                    &&& r.stderr_target() == target_for(e)
                },
    {
        let o = command.stdout_redirect();
        let e = command.stderr_redirect();
        Self::with_redirections(o, e)
    }

    /// Where the standard output goes.
    pub fn stdout(&self) -> (r: &OutputTarget)
        ensures
            *r == self.stdout_target(),
    {
        &self.stdout
    }

    /// Where the standard error goes.
    pub fn stderr(&self) -> (r: &OutputTarget)
        ensures
            *r == self.stderr_target(),
    {
        &self.stderr
    }
}

} // verus!
