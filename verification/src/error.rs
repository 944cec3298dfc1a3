//! The ways a tape operation can fail.
use vstd::prelude::*;
use vstd::string::*;
use crate::path::{spec_render, TapePath};

verus! {

/// Why a tape operation stopped.
#[derive(Debug)]
pub enum TapeError {
    /// The user's local data directory is unknown.
    NoLocalDir,
    /// The user's home directory is unknown.
    NoHomeDir,
    /// The user's configuration directory is unknown.
    NoConfigDir,
    /// Neither a tape name nor a tape path was given.
    NoTapeGiven,
    /// The tape to insert does not exist (or is the tape library itself).
    TapeNotFound { identifier: String, source: TapePath },
    /// The tape to show does not exist; `location` is where it was looked
    /// for, relative to the home directory.
    TapeNotFoundAt { name: String, location: TapePath },
    /// A path that should lie under the home directory does not.
    NotUnderHome,
    /// The tape has a `tape.toml` that does not parse.
    InvalidManifest,
    /// A target's backup slot is already taken.
    BackupExists,
    /// No tape is inserted, so there is nothing to eject.
    NoActiveTape,
    /// The state file names no tape.
    CorruptedState,
    /// A required binary is not installed.
    MissingDependency(String),
}

impl TapeError {
    /// The message the command line reports for this error.  For
    /// `TapeNotFound` the message ends with "does not exist at ", and the
    /// caller follows it with the tape's path in Rust's debug quoting.
    pub fn message(&self) -> (res: String)
        ensures
            res@ == match *self {
                TapeError::NoLocalDir => "Could not locate local directory"@,
                TapeError::NoHomeDir => "Could not locate home directory"@,
                TapeError::NoConfigDir => "Could not locate user config direcotry"@,
                TapeError::NoTapeGiven => "Must provide either a tape name or --path"@,
                TapeError::TapeNotFound { identifier, source } => "Tape '"@ + identifier@
                    + "' does not exist at "@,
                TapeError::TapeNotFoundAt { name, location } => "Tape '"@ + name@
                    + "' does not exist at ~/"@ + spec_render(location@),
                TapeError::NotUnderHome => "prefix not found"@,
                TapeError::InvalidManifest => "Failed to parse TOML file"@,
                TapeError::BackupExists => "Backup of config already found"@,
                TapeError::NoActiveTape => "No active tape nothing to eject"@,
                TapeError::CorruptedState => "State file is corrupted or is missing CURRENT-RICE entry"@,
                TapeError::MissingDependency(name) => "Dependency `"@ + name@ + "` not found"@,
            },
    {
        match self {
            TapeError::NoLocalDir => String::from_str("Could not locate local directory"),
            TapeError::NoHomeDir => String::from_str("Could not locate home directory"),
            TapeError::NoConfigDir => String::from_str("Could not locate user config direcotry"),
            TapeError::NoTapeGiven => String::from_str("Must provide either a tape name or --path"),
            TapeError::TapeNotFound { identifier, source: _ } => {
                let mut m = String::from_str("Tape '");
                m.append(identifier.as_str());
                m.append("' does not exist at ");
                m
            },
            TapeError::TapeNotFoundAt { name, location } => {
                let mut m = String::from_str("Tape '");
                m.append(name.as_str());
                m.append("' does not exist at ~/");
                let shown = location.render();
                m.append(shown.as_str());
                m
            },
            TapeError::NotUnderHome => String::from_str("prefix not found"),
            TapeError::InvalidManifest => String::from_str("Failed to parse TOML file"),
            TapeError::BackupExists => String::from_str("Backup of config already found"),
            TapeError::NoActiveTape => String::from_str("No active tape nothing to eject"),
            TapeError::CorruptedState => String::from_str(
                "State file is corrupted or is missing CURRENT-RICE entry",
            ),
            TapeError::MissingDependency(name) => {
                let mut m = String::from_str("Dependency `");
                m.append(name.as_str());
                m.append("` not found");
                m
            },
        }
    }
}

} // verus!
