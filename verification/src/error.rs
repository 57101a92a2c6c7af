//! The errors that the library reports.
use vstd::prelude::*;

verus! {

/// Why an operation of the library was refused.
#[derive(Debug, PartialEq, Eq)]
pub enum CapsuleError {
    /// The home directory of the user could not be found.
    NoHomeDirectory,
    /// A file with an extension that no adapter handles (the extension).
    UnsupportedExtension(String),
    /// A directory with none of the files that mark a project.
    UndetectedLanguage,
    /// Package names that look like an attempt to inject something.
    SuspiciousPackages(Vec<String>),
    /// The user declined to install unknown packages.
    InstallationCancelled,
    /// The entry file of a project lies outside its root.
    EntryOutsideRoot,
    /// Packages whose exact version npm did not report.
    UnresolvedNpmVersions(Vec<String>),
    /// Packages whose exact version `pip freeze` did not report.
    UnfrozenVersions(Vec<String>),
    /// A Python run needs a file to run.
    MissingPythonEntry,
    /// A TypeScript file run lost its file.
    MissingTypeScriptEntry,
    /// A Python script failed and no missing module explains it.
    ScriptFailed,
    /// A Python script failed again after the missing package was installed.
    ScriptFailedAfterRetry,
    /// A Node.js script failed and no missing module explains it.
    NodeScriptFailed,
    /// A Node.js script failed again after the missing package was installed.
    NodeScriptFailedAfterRetry,
    /// A TypeScript file path that names no file.
    MissingFileName,
    /// `package.json` is not JSON.
    InvalidPackageJson,
    /// A TypeScript project has neither a `dev` nor a `start` script.
    NoTypeScriptScript,
}

} // verus!
