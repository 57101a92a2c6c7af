//! What a run installs, and whether it writes a new lock, before the
//! program starts.
use vstd::prelude::*;

use crate::adapters::node::{install_target, lock_wf, node_install_targets, node_lock_stale, pinned_version};
use crate::adapters::python::python_install_targets;
use crate::adapters::typescript::typescript_lock_stale;
use crate::detector::Language;
use crate::lockfile::CapsuleLock;
use crate::util::paths::clone_strings;

verus! {

/// The installer steps of a run.
pub enum RunPlan {
    /// `--no-install`: check and report what would be installed (`targets`);
    /// install nothing and do not run.
    Preview { targets: Vec<String> },
    /// Install `targets`; then write a new lock when `write_lock`, and run.
    Install { targets: Vec<String>, write_lock: bool },
}

/// How a pinned version is attached to a package name: `==` for pip, `@`
/// for npm.
pub open spec fn pin_separator(language: Language) -> Seq<char> {
    if language == Language::Python {
        "=="@
    } else {
        "@"@
    }
}

/// The install target of each scanned package, in order.
pub open spec fn targets_match(
    targets: Seq<String>,
    packages: Seq<String>,
    existing: Option<&CapsuleLock>,
    language: Language,
) -> bool {
    &&& targets.len() == packages.len()
    &&& forall|i: int|
        0 <= i < targets.len() ==> #[trigger] targets[i]@ == install_target(
            packages[i]@,
            pinned_version(existing, packages[i]@),
            pin_separator(language),
        )
}

/// Whether the run writes a new lock: for Python only when there is none;
/// for Node.js and TypeScript when the lock is stale for the scanned
/// packages.
pub open spec fn lock_written(
    language: Language,
    existing: Option<&CapsuleLock>,
    packages: Seq<Seq<char>>,
) -> bool {
    match language {
        Language::Python => existing is None,
        Language::Node => node_lock_stale(existing, packages),
        Language::TypeScript => typescript_lock_stale(existing, packages),
    }
}

/// The installer steps of a run of scanned `packages` with the lock that
/// exists. Without installing, Python reports its install targets, Node.js
/// and TypeScript the scanned packages.
pub fn plan_run(
    language: Language,
    packages: &[String],
    existing: Option<&CapsuleLock>,
    no_install: bool,
) -> (r: RunPlan)
    requires
        lock_wf(existing),
    ensures
        no_install && language == Language::Python ==> (r matches RunPlan::Preview { targets }
            && targets_match(targets@, packages@, existing, language)),
        no_install && language != Language::Python ==> (r matches RunPlan::Preview { targets }
            && targets@.map_values(|s: String| s@) == packages@.map_values(|s: String| s@)),
        !no_install ==> (r matches RunPlan::Install { targets, write_lock }
            && targets_match(targets@, packages@, existing, language)
            && write_lock == lock_written(language, existing, packages@.map_values(|s: String| s@))),
{
    let targets = match language {
        Language::Python => python_install_targets(packages, existing),
        Language::Node => node_install_targets(packages, existing),
        Language::TypeScript => crate::adapters::typescript::typescript_install_targets(
            packages,
            existing,
        ),
    };
    if no_install {
        if language == Language::Python {
            return RunPlan::Preview { targets };
        }
        return RunPlan::Preview { targets: clone_strings(packages) };
    }
    let write_lock = match language {
        Language::Python => existing.is_none(),
        Language::Node => crate::adapters::node::lock_needs_update(existing, packages),
        Language::TypeScript => crate::adapters::typescript::lock_needs_update(existing, packages),
    };
    RunPlan::Install { targets, write_lock }
}

} // verus!
