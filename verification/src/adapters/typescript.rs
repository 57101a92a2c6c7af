//! TypeScript projects: the `tsx` runtime package, install targets, lock
//! decisions, the workspace of a single file, and the scripts of a project.
use vstd::prelude::*;

use crate::adapters::node::{
    install_target, lock_wf, node_install_targets, pinned_version, preferred_script_spec,
};
use crate::command::Platform;
use crate::error::CapsuleError;
use crate::lockfile::CapsuleLock;
use crate::util::json::{get, member, parse_manifest, parsed_json, JsonValue};
use crate::util::paths::FsPath;
use crate::util::text::str_eq;

verus! {

/// The TypeScript adapter.
pub struct TypeScriptAdapter;

impl TypeScriptAdapter {
    /// The scanned packages with `tsx`, which runs the files, added at the
    /// end unless it is there already.
    pub fn with_runtime_packages(&self, scanned: Vec<String>) -> (r: Vec<String>)
        ensures
            scanned@.map_values(|s: String| s@).contains("tsx"@) ==> r@.map_values(|s: String| s@)
                == scanned@.map_values(|s: String| s@),
            !scanned@.map_values(|s: String| s@).contains("tsx"@) ==> r@.map_values(
                |s: String| s@,
            ) == scanned@.map_values(|s: String| s@).push("tsx"@),
            r@.map_values(|s: String| s@).contains("tsx"@),
    {
        let ghost names = scanned@.map_values(|s: String| s@);
        let mut i: usize = 0;
        while i < scanned.len()
            invariant
                i <= scanned@.len(),
                names == scanned@.map_values(|s: String| s@),
                forall|k: int| 0 <= k < i ==> names[k] != "tsx"@,
            decreases scanned@.len() - i,
        {
            if str_eq(scanned[i].as_str(), "tsx") {
                assert(names[i as int] == "tsx"@);
                return scanned;
            }
            i = i + 1;
        }
        let mut r = scanned;
        let t = "tsx".to_owned();
        proof {
            crate::util::text::lemma_push_texts(r@, t);
        }
        r.push(t);
        assert(r@.map_values(|s: String| s@)[r@.len() - 1] == "tsx"@);
        r
    }
}

/// The npm install arguments for a TypeScript project, as for Node.js.
pub fn typescript_install_targets(packages: &[String], existing: Option<&CapsuleLock>) -> (r: Vec<
    String,
>)
    requires
        lock_wf(existing),
    ensures
        r@.len() == packages@.len(),
        forall|i: int|
            0 <= i < r@.len() ==> #[trigger] r@[i]@ == install_target(
                packages@[i]@,
                pinned_version(existing, packages@[i]@),
                "@"@,
            ),
{
    node_install_targets(packages, existing)
}

/// Whether a TypeScript lock must be written: there is none, or some scanned
/// package is not pinned.
pub open spec fn typescript_lock_stale(existing: Option<&CapsuleLock>, packages: Seq<Seq<char>>) -> bool {
    match existing {
        None => true,
        Some(lock) => exists|i: int|
            0 <= i < packages.len() && !lock.packages.map().contains_key(#[trigger] packages[i]),
    }
}

/// A TypeScript run keeps its lock exactly when the lock pins every scanned
/// package, wherever the package stands in the scan; without a lock one is
/// always written, and scanning one more package that the lock does not pin
/// always leads to a new lock.
pub proof fn typescript_lock_kept_only_when_all_pinned(
    existing: Option<&CapsuleLock>,
    packages: Seq<Seq<char>>,
    added: Seq<char>,
)
    ensures
        existing is None ==> typescript_lock_stale(existing, packages),
        existing matches Some(lock) ==> (!typescript_lock_stale(existing, packages) <==> forall|i: int|
            0 <= i < packages.len() ==> lock.packages.map().contains_key(#[trigger] packages[i])),
        existing matches Some(lock) && !lock.packages.map().contains_key(added) ==> typescript_lock_stale(
            existing,
            packages.push(added),
        ) && typescript_lock_stale(existing, seq![added] + packages),
        typescript_lock_stale(existing, packages) ==> typescript_lock_stale(
            existing,
            packages.push(added),
        ),
{
    if let Some(lock) = existing {
        if !lock.packages.map().contains_key(added) {
            assert(packages.push(added)[packages.len() as int] == added);
            assert((seq![added] + packages)[0] == added);
        }
        if typescript_lock_stale(existing, packages) {
            let i = choose|i: int|
                0 <= i < packages.len() && !lock.packages.map().contains_key(#[trigger] packages[i]);
            assert(packages.push(added)[i] == packages[i]);
        }
    }
}

/// Whether the lock must be written anew for the scanned packages.
pub fn lock_needs_update(existing: Option<&CapsuleLock>, packages: &[String]) -> (b: bool)
    requires
        lock_wf(existing),
    ensures
        b == typescript_lock_stale(existing, packages@.map_values(|s: String| s@)),
{
    match existing {
        None => true,
        Some(lock) => {
            let ghost names = packages@.map_values(|s: String| s@);
            let mut i: usize = 0;
            while i < packages.len()
                invariant
                    i <= packages@.len(),
                    lock.packages.wf(),
                    existing == Some(lock),
                    names == packages@.map_values(|s: String| s@),
                    forall|k: int| 0 <= k < i ==> lock.packages.map().contains_key(#[trigger] names[k]),
                decreases packages@.len() - i,
            {
                assert(names[i as int] == packages@[i as int]@);
                if !lock.packages.contains_key(packages[i].as_str()) {
                    assert(!lock.packages.map().contains_key(names[i as int]));
                    return true;
                }
                i = i + 1;
            }
            false
        },
    }
}

/// The `tsx` launcher installed in a cached environment.
pub fn tsx_bin(env: &FsPath, platform: Platform) -> (p: FsPath)
    ensures
        platform == Platform::Windows ==> p@ == env@.push("node_modules"@).push(".bin"@).push(
            "tsx.cmd"@,
        ),
        platform == Platform::Unix ==> p@ == env@.push("node_modules"@).push(".bin"@).push(
            "tsx"@,
        ),
{
    let bin = env.join("node_modules").join(".bin");
    if platform == Platform::Windows {
        bin.join("tsx.cmd")
    } else {
        bin.join("tsx")
    }
}

/// The workspace inside a cached environment where a TypeScript file runs.
pub fn workspace_dir(env: &FsPath) -> (p: FsPath)
    ensures
        p@ == env@.push("workspace"@),
{
    env.join("workspace")
}

/// The name of the file that a path ends in: its last component, unless
/// there is none or it is `.`, `..` or a root.
pub open spec fn file_name_of(path: Seq<Seq<char>>) -> Option<Seq<char>> {
    if path.len() == 0 || path.last() == "."@ || path.last() == ".."@ || path.last() == "/"@
        || path.last() == "\\"@ {
        None
    } else {
        Some(path.last())
    }
}

/// Where a TypeScript file is copied to run: the workspace, under the
/// file's own name.
pub fn workspace_entry(env: &FsPath, source_file: &FsPath) -> (r: Result<FsPath, CapsuleError>)
    ensures
        match r {
            Ok(p) => file_name_of(source_file@) matches Some(name) && p@ == env@.push(
                "workspace"@,
            ).push(name),
            Err(e) => e == CapsuleError::MissingFileName && file_name_of(source_file@) is None,
        },
{
    let n = source_file.components.len();
    if n == 0 {
        return Err(CapsuleError::MissingFileName);
    }
    let last = source_file.components[n - 1].as_str();
    assert(last@ == source_file@.last());
    if str_eq(last, ".") || str_eq(last, "..") || str_eq(last, "/") || str_eq(last, "\\") {
        return Err(CapsuleError::MissingFileName);
    }
    Ok(workspace_dir(env).join(last))
}

/// The npm arguments that run a TypeScript project: `run dev` when
/// `package.json` has a `dev` script, else `start`; a project with neither
/// is refused.
pub open spec fn typescript_script_spec(manifest: JsonValue) -> Option<Seq<Seq<char>>> {
    match member(manifest, "scripts"@) {
        Some(scripts) => if member(scripts, "dev"@) is Some {
            Some(seq!["run"@, "dev"@])
        } else if member(scripts, "start"@) is Some {
            Some(seq!["start"@])
        } else {
            None
        },
        None => None,
    }
}

/// The npm arguments that run a TypeScript project with this `package.json`.
pub fn typescript_script_args(manifest: &JsonValue) -> (r: Result<Vec<String>, CapsuleError>)
    ensures
        match r {
            Ok(args) => typescript_script_spec(*manifest) == Some(args@.map_values(|s: String| s@)),
            Err(e) => e == CapsuleError::NoTypeScriptScript && typescript_script_spec(*manifest) is None,
        },
{
    if let Some(scripts) = get(manifest, "scripts") {
        if get(scripts, "dev").is_some() {
            let args = vec!["run".to_owned(), "dev".to_owned()];
            assert(args@.map_values(|s: String| s@) =~= seq!["run"@, "dev"@]);
            return Ok(args);
        }
        if get(scripts, "start").is_some() {
            let args = vec!["start".to_owned()];
            assert(args@.map_values(|s: String| s@) =~= seq!["start"@]);
            return Ok(args);
        }
    }
    Err(CapsuleError::NoTypeScriptScript)
}

/// The npm arguments that run a TypeScript project whose `package.json`
/// holds `bytes`; text that is not JSON is refused.
pub fn typescript_script_from_manifest(bytes: &[u8]) -> (r: Result<Vec<String>, CapsuleError>)
    ensures
        match parsed_json(bytes@) {
            Some(manifest) => match r {
                Ok(args) => typescript_script_spec(manifest) == Some(args@.map_values(|s: String| s@)),
                Err(e) => e == CapsuleError::NoTypeScriptScript && typescript_script_spec(manifest) is None,
            },
            None => r == Err::<Vec<String>, CapsuleError>(CapsuleError::InvalidPackageJson),
        },
{
    let manifest = parse_manifest(bytes)?;
    typescript_script_args(&manifest)
}

/// A project directory runs its `dev` script when `package.json` has one
/// (`npm run dev`), otherwise its `start` script (`npm start`); with neither,
/// Node.js runs an entry file and TypeScript refuses.
pub proof fn dev_script_is_preferred_to_start(manifest: JsonValue)
    ensures
        (member(manifest, "scripts"@) matches Some(sc) && member(sc, "dev"@) is Some) ==> (
        preferred_script_spec(manifest) == Some("dev"@) && typescript_script_spec(manifest) == Some(
            seq!["run"@, "dev"@],
        )),
        (member(manifest, "scripts"@) matches Some(sc) && member(sc, "dev"@) is None && member(
            sc,
            "start"@,
        ) is Some) ==> (preferred_script_spec(manifest) == Some("start"@)
            && typescript_script_spec(manifest) == Some(seq!["start"@])),
        (member(manifest, "scripts"@) matches Some(sc) ==> member(sc, "dev"@) is None && member(
            sc,
            "start"@,
        ) is None) ==> (preferred_script_spec(manifest) is None && typescript_script_spec(
            manifest,
        ) is None),
{
}

} // verus!
