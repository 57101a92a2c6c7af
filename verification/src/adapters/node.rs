//! Node.js projects: pinned install targets, lock decisions, the linked
//! project in the cached environment, and recovery from a missing module.
use vstd::prelude::*;

use crate::adapters::run::{RunAttempt, RunDecision, RunResult};
use crate::detector::Project;
use crate::error::CapsuleError;
use crate::lockfile::{CapsuleLock, Package, PackageMap, Runtime};
use crate::resolver::node_resolver::{package_root, package_root_of};
use crate::util::json::{
    as_str, get, member, parse_json, parse_manifest, parsed_json, string_value, JsonValue,
};
use crate::util::paths::FsPath;
use crate::util::patterns::{regex_group_one, regex_group_one_matches};
use crate::util::text::{
    chars_of, chars_starts_with, chars_trim_start_char, concat, starts_with, string_of,
    trim_start_char,
};

verus! {

/// The Node.js adapter.
pub struct NodeAdapter;

/// The link to the project inside a cached environment.
pub fn linked_project_root(env: &FsPath) -> (p: FsPath)
    ensures
        p@ == env@.push("project"@),
{
    env.join("project")
}

/// The entry file seen through the project link of the cached environment:
/// its path relative to the project root, under `<env>/project`. An entry
/// outside the root is refused.
pub fn linked_project_entry(project: &Project, env: &FsPath, entry: &FsPath) -> (r: Result<
    FsPath,
    CapsuleError,
>)
    ensures
        match r {
            Ok(p) => exists|rel: Seq<Seq<char>>|
                project.root@ + rel == entry@ && p@ == env@.push("project"@) + rel,
            Err(e) => e == CapsuleError::EntryOutsideRoot && !project.root@.is_prefix_of(entry@),
        },
{
    let link = linked_project_root(env);
    match entry.strip_prefix(&project.root) {
        Some(rel) => Ok(link.join_path(&rel)),
        None => Err(CapsuleError::EntryOutsideRoot),
    }
}

/// `node_modules` inside the project link.
pub fn project_node_modules_path(project_link: &FsPath) -> (p: FsPath)
    ensures
        p@ == project_link@.push("node_modules"@),
{
    project_link.join("node_modules")
}

/// The version pinned for `package` by a lock, if any.
pub open spec fn pinned_version(existing: Option<&CapsuleLock>, package: Seq<char>) -> Option<
    Seq<char>,
> {
    match existing {
        Some(lock) => if lock.packages.map().contains_key(package) {
            Some(lock.packages.map()[package])
        } else {
            None
        },
        None => None,
    }
}

/// `package<sep>version` for a pinned package, the bare name otherwise.
pub open spec fn install_target(package: Seq<char>, pin: Option<Seq<char>>, sep: Seq<char>) -> Seq<
    char,
> {
    match pin {
        Some(version) => package + sep + version,
        None => package,
    }
}

/// A lock that is well formed, when there is one.
pub open spec fn lock_wf(existing: Option<&CapsuleLock>) -> bool {
    match existing {
        Some(lock) => lock.packages.wf(),
        None => true,
    }
}

/// The npm install arguments for the scanned packages: `name@version` for
/// those the lock pins, the bare name for the others; lock entries for
/// packages no longer scanned are ignored.
pub fn node_install_targets(packages: &[String], existing: Option<&CapsuleLock>) -> (r: Vec<String>)
    requires
        lock_wf(existing),
    ensures
        r@.len() == packages@.len(),
        forall|i: int|
            0 <= i < r@.len() ==> #[trigger] r@[i]@ == install_target(
                packages@[i]@,
                pinned_version(existing, packages@[i]@),
                "@"@,
            ),
{
    let mut r: Vec<String> = Vec::new();
    let mut i: usize = 0;
    while i < packages.len()
        invariant
            i <= packages@.len(),
            lock_wf(existing),
            r@.len() == i,
            forall|k: int|
                0 <= k < i ==> #[trigger] r@[k]@ == install_target(
                    packages@[k]@,
                    pinned_version(existing, packages@[k]@),
                    "@"@,
                ),
        decreases packages@.len() - i,
    {
        let package = &packages[i];
        let pin = match existing {
            Some(lock) => lock.packages.get(package.as_str()),
            None => None,
        };
        let target = match pin {
            Some(pinned) => {
                let with_at = concat(package.as_str(), "@");
                concat(with_at.as_str(), pinned.version.as_str())
            },
            None => package.clone(),
        };
        r.push(target);
        i = i + 1;
    }
    r
}

/// Whether a new lock must be written: there is none, or it does not pin
/// exactly as many packages as were scanned, all of them included.
pub open spec fn node_lock_stale(existing: Option<&CapsuleLock>, packages: Seq<Seq<char>>) -> bool {
    match existing {
        None => true,
        Some(lock) => !(lock.packages@.len() == packages.len() && forall|i: int|
            0 <= i < packages.len() ==> lock.packages.map().contains_key(#[trigger] packages[i])),
    }
}

/// Whether the lock must be written anew for the scanned packages.
pub fn lock_needs_update(existing: Option<&CapsuleLock>, packages: &[String]) -> (b: bool)
    requires
        lock_wf(existing),
    ensures
        b == node_lock_stale(existing, packages@.map_values(|s: String| s@)),
{
    match existing {
        None => true,
        Some(lock) => {
            let same_len = lock.packages.len() == packages.len();
            let ghost names = packages@.map_values(|s: String| s@);
            let mut has_all = true;
            let mut i: usize = 0;
            while i < packages.len()
                invariant
                    i <= packages@.len(),
                    lock.packages.wf(),
                    names == packages@.map_values(|s: String| s@),
                    has_all == forall|k: int|
                        0 <= k < i ==> lock.packages.map().contains_key(#[trigger] names[k]),
                decreases packages@.len() - i,
            {
                assert(names[i as int] == packages@[i as int]@);
                if !lock.packages.contains_key(packages[i].as_str()) {
                    has_all = false;
                }
                i = i + 1;
            }
            !(same_len && has_all)
        },
    }
}

/// The Node.js runtime from the output of `node --version` (`unknown` when
/// there was none), without its leading `v`s.
pub fn node_runtime(version_output: Option<String>) -> (r: Runtime)
    ensures
        r.name@ == "node"@,
        r.version@ == trim_start_char(
            match version_output {
                Some(s) => s@,
                None => "unknown"@,
            },
            'v',
        ),
{
    let output = match version_output {
        Some(s) => s,
        None => "unknown".to_owned(),
    };
    let chars = chars_of(output.as_str());
    let version = chars_trim_start_char(chars.as_slice(), 'v');
    Runtime { name: "node".to_owned(), version: string_of(version.as_slice()) }
}

/// The first capture of a pattern, when it compiles, matches, and its group
/// took part.
pub open spec fn first_capture(pattern: Seq<char>, text: Seq<char>) -> Option<Seq<char>> {
    match regex_group_one(pattern, text) {
        Some(caps) => if caps.len() > 0 {
            caps[0]
        } else {
            None
        },
        None => None,
    }
}

/// The first capture of `pattern` in `text`.
pub fn first_match(pattern: &str, text: &str) -> (r: Option<String>)
    ensures
        match r {
            Some(s) => first_capture(pattern@, text@) == Some(s@),
            None => first_capture(pattern@, text@) is None,
        },
{
    match regex_group_one_matches(pattern, text) {
        Some(caps) => {
            if caps.len() > 0 {
                match &caps[0] {
                    Some(s) => Some(s.clone()),
                    None => None,
                }
            } else {
                None
            }
        },
        None => None,
    }
}

/// `Cannot find module 'x'`.
pub open spec fn missing_module_pattern() -> Seq<char> {
    r#"Cannot find module ['"]([^'"]+)['"]"#@
}

/// `Cannot find package 'x'`.
pub open spec fn missing_package_pattern() -> Seq<char> {
    r#"Cannot find package ['"]([^'"]+)['"]"#@
}

/// The package that Node.js reported missing: the specifier of the first
/// pattern that matches, unless it is relative, reduced to its package.
pub open spec fn node_missing_package(stderr: Seq<char>) -> Option<Seq<char>> {
    let spec = match first_capture(missing_module_pattern(), stderr) {
        Some(s) => Some(s),
        None => first_capture(missing_package_pattern(), stderr),
    };
    match spec {
        Some(s) => if starts_with(s, "./"@) || starts_with(s, "../"@) {
            None
        } else {
            Some(package_root_of(s))
        },
        None => None,
    }
}

/// The package that a failed Node.js run reported missing.
pub fn parse_module_not_found(stderr: &str) -> (r: Option<String>)
    ensures
        match r {
            Some(p) => node_missing_package(stderr@) == Some(p@),
            None => node_missing_package(stderr@) is None,
        },
{
    let spec = match first_match(r#"Cannot find module ['"]([^'"]+)['"]"#, stderr) {
        Some(s) => s,
        None => match first_match(r#"Cannot find package ['"]([^'"]+)['"]"#, stderr) {
            Some(s) => s,
            None => {
                return None;
            },
        },
    };
    let sc = chars_of(spec.as_str());
    let dot = chars_of("./");
    let dotdot = chars_of("../");
    if chars_starts_with(sc.as_slice(), dot.as_slice()) || chars_starts_with(
        sc.as_slice(),
        dotdot.as_slice(),
    ) {
        None
    } else {
        Some(package_root(spec.as_str()))
    }
}

/// What a failed Node.js run leads to.
pub open spec fn node_decision_spec(attempt: RunAttempt, code: i32, stderr: Seq<char>) -> Option<
    Seq<char>,
> {
    if code == 0 || attempt == RunAttempt::Retry {
        None
    } else {
        node_missing_package(stderr)
    }
}

/// After a Node.js run: finish on success; after a first failure that names
/// a missing package, install it (with the user's consent) and retry;
/// otherwise fail.
pub fn node_after_run(attempt: RunAttempt, result: &RunResult) -> (d: RunDecision)
    ensures
        result.code == 0 ==> d == RunDecision::Finish,
        result.code != 0 && attempt == RunAttempt::Retry ==> d == RunDecision::Fail(
            CapsuleError::NodeScriptFailedAfterRetry,
        ),
        result.code != 0 && attempt == RunAttempt::First ==> match node_missing_package(
            result.stderr@,
        ) {
            Some(p) => d matches RunDecision::InstallAndRetry { package, needs_consent } && package@
                == p && needs_consent,
            None => d == RunDecision::Fail(CapsuleError::NodeScriptFailed),
        },
{
    if result.success() {
        return RunDecision::Finish;
    }
    match attempt {
        RunAttempt::Retry => RunDecision::Fail(CapsuleError::NodeScriptFailedAfterRetry),
        RunAttempt::First => match parse_module_not_found(result.stderr.as_str()) {
            Some(package) => RunDecision::InstallAndRetry { package, needs_consent: true },
            None => RunDecision::Fail(CapsuleError::NodeScriptFailed),
        },
    }
}

/// The script that a Node.js project directory runs with `npm run`: `dev`
/// when `package.json` has one, else `start`.
pub open spec fn preferred_script_spec(manifest: JsonValue) -> Option<Seq<char>> {
    match member(manifest, "scripts"@) {
        Some(scripts) => if member(scripts, "dev"@) is Some {
            Some("dev"@)
        } else if member(scripts, "start"@) is Some {
            Some("start"@)
        } else {
            None
        },
        None => None,
    }
}

/// The npm script to run for a project with this `package.json`.
pub fn preferred_package_script(manifest: &JsonValue) -> (r: Option<String>)
    ensures
        match r {
            Some(s) => preferred_script_spec(*manifest) == Some(s@),
            None => preferred_script_spec(*manifest) is None,
        },
{
    match get(manifest, "scripts") {
        Some(scripts) => {
            if get(scripts, "dev").is_some() {
                Some("dev".to_owned())
            } else if get(scripts, "start").is_some() {
                Some("start".to_owned())
            } else {
                None
            }
        },
        None => None,
    }
}

/// The `main` entry that `package.json` names, when it is a string.
pub fn package_main(manifest: &JsonValue) -> (r: Option<String>)
    ensures
        match r {
            Some(s) => member(*manifest, "main"@) matches Some(m) && string_value(m) == Some(s@),
            None => !(member(*manifest, "main"@) matches Some(m) && string_value(m) is Some),
        },
{
    match get(manifest, "main") {
        Some(main) => match as_str(main) {
            Some(s) => Some(s.clone()),
            None => None,
        },
        None => None,
    }
}

/// The npm script to run for a project whose `package.json` holds `bytes`;
/// text that is not JSON is refused.
pub fn preferred_script_from_manifest(bytes: &[u8]) -> (r: Result<Option<String>, CapsuleError>)
    ensures
        match parsed_json(bytes@) {
            Some(manifest) => r matches Ok(o) && match o {
                Some(s) => preferred_script_spec(manifest) == Some(s@),
                None => preferred_script_spec(manifest) is None,
            },
            None => r == Err::<Option<String>, CapsuleError>(CapsuleError::InvalidPackageJson),
        },
{
    let manifest = parse_manifest(bytes)?;
    Ok(preferred_package_script(&manifest))
}

/// The `main` entry of a `package.json` that holds `bytes`; text that is not
/// JSON is refused.
pub fn main_from_manifest(bytes: &[u8]) -> (r: Result<Option<String>, CapsuleError>)
    ensures
        match parsed_json(bytes@) {
            Some(manifest) => r matches Ok(o) && match o {
                Some(s) => member(manifest, "main"@) matches Some(m) && string_value(m) == Some(s@),
                None => !(member(manifest, "main"@) matches Some(m) && string_value(m) is Some),
            },
            None => r == Err::<Option<String>, CapsuleError>(CapsuleError::InvalidPackageJson),
        },
{
    let manifest = parse_manifest(bytes)?;
    Ok(package_main(&manifest))
}

/// The files tried, in order, as the entry of a Node.js project directory
/// without a usable `main`.
pub fn entry_file_names() -> (r: Vec<String>)
    ensures
        r@.map_values(|s: String| s@) == seq!["index.js"@, "server.js"@, "app.js"@, "main.js"@],
{
    let r = vec![
        "index.js".to_owned(),
        "server.js".to_owned(),
        "app.js".to_owned(),
        "main.js".to_owned(),
    ];
    assert(r@.map_values(|s: String| s@) =~= seq!["index.js"@, "server.js"@, "app.js"@, "main.js"@]);
    r
}

/// The exact version that `npm list --json` reports for `package`.
pub open spec fn npm_version(listing: JsonValue, package: Seq<char>) -> Option<Seq<char>> {
    match member(listing, "dependencies"@) {
        Some(deps) => match member(deps, package) {
            Some(entry) => match member(entry, "version"@) {
                Some(v) => string_value(v),
                None => None,
            },
            None => None,
        },
        None => None,
    }
}

/// The version npm reports for `package`.
fn listed_version(listing: &JsonValue, package: &str) -> (r: Option<String>)
    ensures
        match r {
            Some(v) => npm_version(*listing, package@) == Some(v@),
            None => npm_version(*listing, package@) is None,
        },
{
    let deps = get(listing, "dependencies")?;
    let entry = get(deps, package)?;
    let version = get(entry, "version")?;
    match as_str(version) {
        Some(v) => Some(v.clone()),
        None => None,
    }
}

/// The packages of `packages` that npm reports no version for, in order.
pub open spec fn unlisted(listing: JsonValue, packages: Seq<Seq<char>>) -> Seq<Seq<char>> {
    packages.filter(|p: Seq<char>| npm_version(listing, p) is None)
}

/// The exact versions that `npm list --json` reports for the packages; the
/// packages it reports none for are refused, all named.
pub fn select_npm_versions(listing: &JsonValue, packages: &[String]) -> (r: Result<
    PackageMap,
    CapsuleError,
>)
    ensures
        r is Ok <==> forall|i: int|
            0 <= i < packages@.len() ==> npm_version(*listing, #[trigger] packages@[i]@) is Some,
        r matches Ok(m) ==> m.wf() && m.map() == Map::new(
            |k: Seq<char>| packages@.map_values(|s: String| s@).contains(k),
            |k: Seq<char>| npm_version(*listing, k)->0,
        ),
        r matches Err(e) ==> e matches CapsuleError::UnresolvedNpmVersions(missing)
            && missing@.map_values(|s: String| s@) == unlisted(
            *listing,
            packages@.map_values(|s: String| s@),
        ),
{
    let ghost names = packages@.map_values(|s: String| s@);
    let mut out = PackageMap::new();
    let mut missing: Vec<String> = Vec::new();
    let mut i: usize = 0;
    while i < packages.len()
        invariant
            i <= packages@.len(),
            names == packages@.map_values(|s: String| s@),
            out.wf(),
            out.map() == Map::new(
                |k: Seq<char>| names.take(i as int).contains(k) && npm_version(*listing, k) is Some,
                |k: Seq<char>| npm_version(*listing, k)->0,
            ),
            missing@.map_values(|s: String| s@) == unlisted(*listing, names.take(i as int)),
        decreases packages@.len() - i,
    {
        proof {
            reveal_with_fuel(Seq::filter, 1);
            assert(names.take(i + 1).drop_last() =~= names.take(i as int));
        }
        assert(packages@[i as int]@ == names[i as int]);
        match listed_version(listing, packages[i].as_str()) {
            Some(version) => {
                out.insert(packages[i].clone(), Package { version });
                assert(out.map() =~= Map::new(
                    |k: Seq<char>| names.take(i + 1).contains(k) && npm_version(*listing, k) is Some,
                    |k: Seq<char>| npm_version(*listing, k)->0,
                )) by {
                    assert forall|k: Seq<char>| names.take(i + 1).contains(k) implies names.take(i as int).contains(k) || k == names[i as int] by {
                        let j = choose|j: int| 0 <= j < i + 1 && #[trigger] names.take(i + 1)[j] == k;
                        if j < i {
                            assert(names.take(i as int)[j] == k);
                        }
                    }
                    assert forall|k: Seq<char>| names.take(i as int).contains(k) implies names.take(i + 1).contains(k) by {
                        let j = choose|j: int| 0 <= j < i && #[trigger] names.take(i as int)[j] == k;
                        assert(names.take(i + 1)[j] == k);
                    }
                    assert(names.take(i + 1)[i as int] == names[i as int]);
                }
                assert(missing@.map_values(|s: String| s@) =~= unlisted(*listing, names.take(i + 1)));
            },
            None => {
                let ghost before = missing@;
                let m = packages[i].clone();
                proof {
                    crate::util::text::lemma_push_texts(before, m);
                }
                missing.push(m);
                assert(missing@.map_values(|s: String| s@) =~= unlisted(*listing, names.take(i + 1)));
                assert(out.map() =~= Map::new(
                    |k: Seq<char>| names.take(i + 1).contains(k) && npm_version(*listing, k) is Some,
                    |k: Seq<char>| npm_version(*listing, k)->0,
                )) by {
                    assert forall|k: Seq<char>| names.take(i + 1).contains(k) && npm_version(*listing, k) is Some implies names.take(i as int).contains(k) by {
                        let j = choose|j: int| 0 <= j < i + 1 && #[trigger] names.take(i + 1)[j] == k;
                        if j < i {
                            assert(names.take(i as int)[j] == k);
                        }
                    }
                    assert forall|k: Seq<char>| names.take(i as int).contains(k) implies names.take(i + 1).contains(k) by {
                        let j = choose|j: int| 0 <= j < i && #[trigger] names.take(i as int)[j] == k;
                        assert(names.take(i + 1)[j] == k);
                    }
                }
            },
        }
        i = i + 1;
    }
    assert(names.take(i as int) =~= names);
    if missing.len() > 0 {
        proof {
            let un = unlisted(*listing, names);
            assert(un.len() > 0);
            let u = un[0];
            assert(un.contains(u));
            lemma_filter_member(names, |p: Seq<char>| npm_version(*listing, p) is None, u);
            let j = choose|j: int| 0 <= j < names.len() && #[trigger] names[j] == u;
            assert(names[j] == packages@[j]@);
        }
        return Err(CapsuleError::UnresolvedNpmVersions(missing));
    }
    proof {
        assert forall|j: int| 0 <= j < packages@.len() implies npm_version(*listing, #[trigger] packages@[j]@) is Some by {
            assert(names[j] == packages@[j]@);
            if npm_version(*listing, names[j]) is None {
                lemma_filter_keeps(names, |p: Seq<char>| npm_version(*listing, p) is None, j);
            }
        }
        assert(out.map() =~= Map::new(
            |k: Seq<char>| names.contains(k),
            |k: Seq<char>| npm_version(*listing, k)->0,
        )) by {
            assert forall|k: Seq<char>| names.contains(k) implies npm_version(*listing, k) is Some by {
                let j = choose|j: int| 0 <= j < names.len() && #[trigger] names[j] == k;
                assert(npm_version(*listing, packages@[j]@) is Some);
            }
        }
    }
    Ok(out)
}

/// What `npm list --json` printed, as JSON; output that is not JSON counts
/// as `null`, which lists nothing.
pub open spec fn npm_listing(stdout: Seq<u8>) -> JsonValue {
    match parsed_json(stdout) {
        Some(v) => v,
        None => JsonValue::Null,
    }
}

/// The exact versions that the raw output of `npm list --json` reports for
/// the packages; the packages it reports none for are refused, all named.
pub fn npm_versions_from_output(stdout: &[u8], packages: &[String]) -> (r: Result<
    PackageMap,
    CapsuleError,
>)
    ensures
        r is Ok <==> forall|i: int|
            0 <= i < packages@.len() ==> npm_version(npm_listing(stdout@), #[trigger] packages@[i]@)
                is Some,
        r matches Ok(m) ==> m.wf() && m.map() == Map::new(
            |k: Seq<char>| packages@.map_values(|s: String| s@).contains(k),
            |k: Seq<char>| npm_version(npm_listing(stdout@), k)->0,
        ),
        r matches Err(e) ==> e matches CapsuleError::UnresolvedNpmVersions(missing)
            && missing@.map_values(|s: String| s@) == unlisted(
            npm_listing(stdout@),
            packages@.map_values(|s: String| s@),
        ),
{
    let listing = match parse_json(stdout) {
        Some(v) => v,
        None => JsonValue::Null,
    };
    select_npm_versions(&listing, packages)
}

/// A lock whose pins are the versions npm reported for the scanned packages
/// is current for them: the next run of those packages does not write it
/// again.
pub proof fn npm_lock_is_current(listing: JsonValue, packages: Seq<Seq<char>>, lock: CapsuleLock)
    requires
        packages.no_duplicates(),
        lock.wf(),
        forall|i: int| 0 <= i < packages.len() ==> npm_version(listing, #[trigger] packages[i]) is Some,
        lock.packages.map() == Map::new(
            |k: Seq<char>| packages.contains(k),
            |k: Seq<char>| npm_version(listing, k)->0,
        ),
    ensures
        !node_lock_stale(Some(&lock), packages),
{
    crate::lockfile::lemma_entry_count(lock.packages@);
    packages.unique_seq_to_set();
    assert(lock.packages.map().dom() =~= packages.to_set());
    assert forall|i: int| 0 <= i < packages.len() implies lock.packages.map().contains_key(#[trigger] packages[i]) by {
        assert(packages.contains(packages[i]));
    }
}

/// An element of a filtered sequence satisfies the predicate and is in the
/// sequence.
pub proof fn lemma_filter_member(s: Seq<Seq<char>>, pred: spec_fn(Seq<char>) -> bool, x: Seq<char>)
    requires
        s.filter(pred).contains(x),
    ensures
        pred(x),
        s.contains(x),
{
    let j = choose|j: int| 0 <= j < s.filter(pred).len() && s.filter(pred)[j] == x;
    s.lemma_filter_pred(pred, j);
    s.lemma_filter_contains_rev(pred, x);
}

/// An element of a sequence that satisfies the predicate is kept by the
/// filter.
pub proof fn lemma_filter_keeps(s: Seq<Seq<char>>, pred: spec_fn(Seq<char>) -> bool, i: int)
    requires
        0 <= i < s.len(),
        pred(s[i]),
    ensures
        s.filter(pred).contains(s[i]),
{
    s.lemma_filter_contains(pred, i);
}

} // verus!
