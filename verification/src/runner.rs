//! What the commands print and the lock they write.
use vstd::prelude::*;

use crate::detector::Project;
use crate::lockfile::{CapsuleLock, PackageMap, Runtime};
use crate::util::text::{join, join_with};

verus! {

/// How a package list is printed: `none`, or the names joined by `, `.
pub open spec fn packages_text(packages: Seq<Seq<char>>) -> Seq<char> {
    if packages.len() == 0 {
        "none"@
    } else {
        join_with(packages, ", "@)
    }
}

/// The package list as it is printed.
pub fn fmt_packages(packages: &[String]) -> (r: String)
    ensures
        r@ == packages_text(packages@.map_values(|s: String| s@)),
{
    if packages.len() == 0 {
        "none".to_owned()
    } else {
        join(packages, ", ")
    }
}

/// A version 1 lock of the project with the given runtime, pinned packages
/// and project hash.
pub fn base_lock(project: &Project, runtime: Runtime, packages: PackageMap, project_hash: String) -> (lock: CapsuleLock)
    ensures
        lock.version == 1,
        lock.project_hash == project_hash,
        lock.language == project.language,
        lock.runtime == runtime,
        lock.packages == packages,
{
    CapsuleLock { version: 1, project_hash, language: project.language, runtime, packages }
}

} // verus!
