//! What can go wrong, by the part of the program that reports it.

use vstd::prelude::*;

verus! {

/// The server list could not be had.
#[derive(Debug, Clone, Copy, PartialEq, Eq, Structural)]
pub enum DirectoryError {
    /// The request did not come back.
    Fetch,
    /// The answer was not a list of server records.
    Decode,
}

/// The configuration archive could not be brought up to date.
#[derive(Debug, Clone, Copy, PartialEq, Eq, Structural)]
pub enum SyncError {
    /// The download did not come back.
    Fetch,
    /// A folder or file could not be written.
    Io,
    /// The download was not a readable archive.
    Archive,
}

/// No configuration file was found.
#[derive(Debug, Clone, Copy, PartialEq, Eq, Structural)]
pub enum ResolutionError {
    /// None of the candidates has its file in the folder, and no file was
    /// forced.
    NoMatch,
}

/// The credential file could not be unlocked.
#[derive(Debug, Clone, Copy, PartialEq, Eq, Structural)]
pub enum UnlockError {
    /// The decryption tool could not be started or reported a failure.
    DecryptFailed,
}

/// The run cannot go on.
#[derive(Debug, Clone, Copy, PartialEq, Eq, Structural)]
pub enum FatalError {
    /// No server list is at hand and no file was forced.
    NoCandidates,
}

/// No command line could be made.
#[derive(Debug, Clone, Copy, PartialEq, Eq, Structural)]
pub enum CommandError {
    /// The command line names no program.
    NoCommand,
    /// The server list is empty.
    NoServer,
}

/// A failure together with the part of the program it came from.
#[derive(Debug, Clone, Copy, PartialEq, Eq, Structural)]
pub enum Failure {
    Directory(DirectoryError),
    Sync(SyncError),
    Resolution(ResolutionError),
    Unlock(UnlockError),
    Fatal(FatalError),
    Command(CommandError),
}

impl Failure {
    /// Whether the failure ends the run. A failed refresh of the archive or
    /// of the server list is reported and the run goes on with what is at
    /// hand; every other failure ends it before anything is launched.
    pub open spec fn terminal(self) -> bool {
        !(self is Sync || self is Directory)
    }

    /// The name of the part of the program that reports the failure.
    pub open spec fn origin(self) -> Seq<char> {
        match self {
            Failure::Directory(_) => "update server list"@,
            Failure::Sync(_) => "ovpn"@,
            Failure::Resolution(_) => "build command"@,
            Failure::Unlock(_) => "unlock gpg"@,
            Failure::Fatal(_) => "launch"@,
            Failure::Command(_) => "cmd"@,
        }
    }

    /// What went wrong, in words.
    pub open spec fn text(self) -> Seq<char> {
        match self {
            Failure::Directory(DirectoryError::Fetch) => "server list request failed"@,
            Failure::Directory(DirectoryError::Decode) => "server list is malformed"@,
            Failure::Sync(SyncError::Fetch) => "archive download failed"@,
            Failure::Sync(SyncError::Io) => "archive could not be written to the folder"@,
            Failure::Sync(SyncError::Archive) => "archive is unreadable"@,
            Failure::Resolution(ResolutionError::NoMatch) => "No hostname file found from provided"@,
            Failure::Unlock(UnlockError::DecryptFailed) => "credential file could not be decrypted"@,
            Failure::Fatal(FatalError::NoCandidates) => "No servers found and no force servers"@,
            Failure::Command(CommandError::NoCommand) => "No command specified"@,
            Failure::Command(CommandError::NoServer) => "not able to get best server"@,
        }
    }

    /// The line that reports the failure: where it came from, then what
    /// went wrong.
    pub open spec fn line(self) -> Seq<char> {
        "Error from "@ + self.origin() + " : "@ + self.text()
    }

    /// Whether the failure ends the run.
    pub fn is_terminal(&self) -> (r: bool)
        ensures
            r == self.terminal(),
    {
        match self {
            Failure::Sync(_) => false,
            Failure::Directory(_) => false,
            _ => true,
        }
    }

    /// The name of the part of the program that reports the failure.
    pub fn subsystem(&self) -> (r: &'static str)
        ensures
            r@ == self.origin(),
    {
        match self {
            Failure::Directory(_) => "update server list",
            Failure::Sync(_) => "ovpn",
            Failure::Resolution(_) => "build command",
            Failure::Unlock(_) => "unlock gpg",
            Failure::Fatal(_) => "launch",
            Failure::Command(_) => "cmd",
        }
    }

    /// What went wrong, in words.
    pub fn message(&self) -> (r: &'static str)
        ensures
            r@ == self.text(),
    {
        match self {
            Failure::Directory(DirectoryError::Fetch) => "server list request failed",
            Failure::Directory(DirectoryError::Decode) => "server list is malformed",
            Failure::Sync(SyncError::Fetch) => "archive download failed",
            Failure::Sync(SyncError::Io) => "archive could not be written to the folder",
            Failure::Sync(SyncError::Archive) => "archive is unreadable",
            Failure::Resolution(ResolutionError::NoMatch) => "No hostname file found from provided",
            Failure::Unlock(UnlockError::DecryptFailed) => "credential file could not be decrypted",
            Failure::Fatal(FatalError::NoCandidates) => "No servers found and no force servers",
            Failure::Command(CommandError::NoCommand) => "No command specified",
            Failure::Command(CommandError::NoServer) => "not able to get best server",
        }
    }

    /// The line that reports the failure.
    pub fn report(&self) -> (r: String)
        ensures
            r@ == self.line(),
    {
        String::from_str("Error from ").concat(self.subsystem()).concat(" : ").concat(
            self.message(),
        )
    }
}

} // verus!
