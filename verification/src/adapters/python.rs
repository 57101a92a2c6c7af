//! Python projects: packages for the imports, install targets, the
//! interpreter and its environment, frozen versions, and recovery from a
//! missing module.
use vstd::prelude::*;

use crate::adapters::node::{first_capture, first_match, install_target, lock_wf, pinned_version};
use crate::adapters::run::{RunAttempt, RunDecision, RunResult};
use crate::command::{reported_output, select_command_output, Platform};
use crate::error::CapsuleError;
use crate::lockfile::{CapsuleLock, Package, PackageMap, Runtime};
use crate::resolver::python_resolver::{is_curated, is_curated_import, resolve, resolve_import};
use crate::util::paths::FsPath;
use crate::util::patterns::{lowercase, to_lowercase};
use crate::util::text::{
    before_char, chars_before, chars_eq, chars_find, chars_lines, chars_of, chars_remove_all,
    concat, find_sub, join, join_with, lines, remove_all, slice_vec, string_of,
};

verus! {

/// The Python adapter.
pub struct PythonAdapter;

impl PythonAdapter {
    /// The packages to install for the scanned imports, in the same order.
    pub fn packages_for(&self, imports: &[String]) -> (r: Vec<String>)
        ensures
            r@.len() == imports@.len(),
            forall|i: int| 0 <= i < r@.len() ==> #[trigger] r@[i]@ == resolve_import(imports@[i]@),
    {
        let mut r: Vec<String> = Vec::new();
        let mut i: usize = 0;
        while i < imports.len()
            invariant
                i <= imports@.len(),
                r@.len() == i,
                forall|k: int| 0 <= k < i ==> #[trigger] r@[k]@ == resolve_import(imports@[k]@),
            decreases imports@.len() - i,
        {
            r.push(resolve(imports[i].as_str()));
            i = i + 1;
        }
        r
    }
}

/// The packages of imports that the curated table does not know.
pub open spec fn unknown_imports(imports: Seq<Seq<char>>) -> Seq<Seq<char>> {
    imports.filter(|i: Seq<char>| !is_curated_import(i))
}

/// The packages to install for the imports outside the curated table, which
/// need the user's consent.
pub fn unknown_packages(imports: &[String]) -> (r: Vec<String>)
    ensures
        r@.map_values(|s: String| s@) == unknown_imports(imports@.map_values(|s: String| s@)).map_values(
            |i: Seq<char>| resolve_import(i),
        ),
{
    let ghost names = imports@.map_values(|s: String| s@);
    let mut r: Vec<String> = Vec::new();
    let mut i: usize = 0;
    while i < imports.len()
        invariant
            i <= imports@.len(),
            names == imports@.map_values(|s: String| s@),
            r@.map_values(|s: String| s@) == unknown_imports(names.take(i as int)).map_values(
                |i: Seq<char>| resolve_import(i),
            ),
        decreases imports@.len() - i,
    {
        proof {
            reveal_with_fuel(Seq::filter, 1);
            assert(names.take(i + 1).drop_last() =~= names.take(i as int));
        }
        assert(imports@[i as int]@ == names[i as int]);
        if !is_curated(imports[i].as_str()) {
            let ghost before = r@;
            let p = resolve(imports[i].as_str());
            proof {
                crate::util::text::lemma_push_texts(before, p);
            }
            r.push(p);
        }
        assert(r@.map_values(|s: String| s@) =~= unknown_imports(names.take(i + 1)).map_values(
            |i: Seq<char>| resolve_import(i),
        ));
        i = i + 1;
    }
    assert(names.take(i as int) =~= names);
    r
}

/// The pip install arguments for the scanned packages, in order:
/// `name==version` for those the lock pins, the bare name for the others;
/// lock entries for packages no longer scanned are ignored.
pub fn python_install_targets(packages: &[String], existing: Option<&CapsuleLock>) -> (r: Vec<
    String,
>)
    requires
        lock_wf(existing),
    ensures
        r@.len() == packages@.len(),
        forall|i: int|
            0 <= i < r@.len() ==> #[trigger] r@[i]@ == install_target(
                packages@[i]@,
                pinned_version(existing, packages@[i]@),
                "=="@,
            ),
{
    let mut r: Vec<String> = Vec::new();
    let mut i: usize = 0;
    while i < packages.len()
        invariant
            i <= packages@.len(),
            lock_wf(existing),
            r@.len() == i,
            forall|k: int|
                0 <= k < i ==> #[trigger] r@[k]@ == install_target(
                    packages@[k]@,
                    pinned_version(existing, packages@[k]@),
                    "=="@,
                ),
        decreases packages@.len() - i,
    {
        let package = &packages[i];
        let pin = match existing {
            Some(lock) => lock.packages.get(package.as_str()),
            None => None,
        };
        let target = match pin {
            Some(pinned) => {
                let named = concat(package.as_str(), "==");
                concat(named.as_str(), pinned.version.as_str())
            },
            None => package.clone(),
        };
        r.push(target);
        i = i + 1;
    }
    r
}

/// `No module named 'x'`.
pub open spec fn no_module_pattern() -> Seq<char> {
    r#"No module named ['"]([^'"]+)['"]"#@
}

/// The top-level module that Python reported missing.
pub open spec fn python_missing_module(stderr: Seq<char>) -> Option<Seq<char>> {
    match first_capture(no_module_pattern(), stderr) {
        Some(m) => Some(before_char(m, '.')),
        None => None,
    }
}

/// The top-level module that a failed Python run reported missing.
pub fn parse_module_not_found(stderr: &str) -> (r: Option<String>)
    ensures
        match r {
            Some(m) => python_missing_module(stderr@) == Some(m@),
            None => python_missing_module(stderr@) is None,
        },
{
    match first_match(r#"No module named ['"]([^'"]+)['"]"#, stderr) {
        Some(m) => {
            let mc = chars_of(m.as_str());
            let top = chars_before(mc.as_slice(), '.');
            Some(string_of(top.as_slice()))
        },
        None => None,
    }
}

/// After a Python run: finish on success; after a first failure that names
/// a missing module, install its package (asking for consent unless the
/// import is curated) and retry; otherwise fail.
pub fn python_after_run(attempt: RunAttempt, result: &RunResult) -> (d: RunDecision)
    ensures
        result.code == 0 ==> d == RunDecision::Finish,
        result.code != 0 && attempt == RunAttempt::Retry ==> d == RunDecision::Fail(
            CapsuleError::ScriptFailedAfterRetry,
        ),
        result.code != 0 && attempt == RunAttempt::First ==> match python_missing_module(
            result.stderr@,
        ) {
            Some(m) => d matches RunDecision::InstallAndRetry { package, needs_consent } && package@
                == resolve_import(m) && needs_consent == !is_curated_import(m),
            None => d == RunDecision::Fail(CapsuleError::ScriptFailed),
        },
{
    if result.success() {
        return RunDecision::Finish;
    }
    match attempt {
        RunAttempt::Retry => RunDecision::Fail(CapsuleError::ScriptFailedAfterRetry),
        RunAttempt::First => match parse_module_not_found(result.stderr.as_str()) {
            Some(missing) => {
                let package = resolve(missing.as_str());
                let curated = is_curated(missing.as_str());
                RunDecision::InstallAndRetry { package, needs_consent: !curated }
            },
            None => RunDecision::Fail(CapsuleError::ScriptFailed),
        },
    }
}

/// A command that starts Python: a program and its leading arguments.
pub struct PythonCommand {
    pub program: String,
    pub args: Vec<String>,
}

/// How a Python command is shown: the program, then its arguments, all
/// separated by spaces.
pub open spec fn command_text(program: Seq<char>, args: Seq<Seq<char>>) -> Seq<char> {
    if args.len() == 0 {
        program
    } else {
        program + " "@ + join_with(args, " "@)
    }
}

impl PythonCommand {
    /// The command as it is shown and recorded as the runtime name.
    pub fn display(&self) -> (s: String)
        ensures
            s@ == command_text(self.program@, self.args@.map_values(|a: String| a@)),
    {
        if self.args.len() == 0 {
            self.program.clone()
        } else {
            let with_space = concat(self.program.as_str(), " ");
            let args = join(self.args.as_slice(), " ");
            concat(with_space.as_str(), args.as_str())
        }
    }
}

/// The commands tried, in order, to find Python: `py -3`, `python3`,
/// `python` on Windows; `python3`, `python` elsewhere.
pub fn python_command_candidates(platform: Platform) -> (r: Vec<PythonCommand>)
    ensures
        platform == Platform::Windows ==> r@.len() == 3 && r@[0].program@ == "py"@
            && r@[0].args@.map_values(|a: String| a@) == seq!["-3"@] && r@[1].program@ == "python3"@
            && r@[1].args@.len() == 0 && r@[2].program@ == "python"@ && r@[2].args@.len() == 0,
        platform == Platform::Unix ==> r@.len() == 2 && r@[0].program@ == "python3"@
            && r@[0].args@.len() == 0 && r@[1].program@ == "python"@ && r@[1].args@.len() == 0,
{
    let mut r: Vec<PythonCommand> = Vec::new();
    if platform == Platform::Windows {
        let mut args: Vec<String> = Vec::new();
        args.push("-3".to_owned());
        assert(args@.map_values(|a: String| a@) =~= seq!["-3"@]);
        r.push(PythonCommand { program: "py".to_owned(), args });
    }
    r.push(PythonCommand { program: "python3".to_owned(), args: Vec::new() });
    r.push(PythonCommand { program: "python".to_owned(), args: Vec::new() });
    r
}

/// The version that `--version` reported (its trimmed output, `unknown`
/// without one), with every `Python ` removed.
pub open spec fn python_version_text(report: Option<(Seq<char>, Seq<char>)>) -> Seq<char> {
    let text = match report {
        Some(out) => match reported_output(out.0, out.1) {
            Some(v) => v,
            None => "unknown"@,
        },
        None => "unknown"@,
    };
    remove_all(text, "Python "@)
}

/// The Python runtime: `python`/`unknown` when no command was found,
/// otherwise the command as shown and the version it reported
/// (`version_report`: standard output and error of `--version`, when it ran).
pub fn python_runtime(command: Option<&PythonCommand>, version_report: Option<(String, String)>) -> (r: Runtime)
    ensures
        match command {
            None => r.name@ == "python"@ && r.version@ == "unknown"@,
            Some(c) => r.name@ == command_text(c.program@, c.args@.map_values(|a: String| a@))
                && r.version@ == python_version_text(
                match version_report {
                    Some(out) => Some((out.0@, out.1@)),
                    None => None,
                },
            ),
        },
{
    let py = match command {
        Some(c) => c,
        None => {
            return Runtime { name: "python".to_owned(), version: "unknown".to_owned() };
        },
    };
    let text = match version_report {
        Some((out, err)) => match select_command_output(out.as_str(), err.as_str()) {
            Some(v) => v,
            None => "unknown".to_owned(),
        },
        None => "unknown".to_owned(),
    };
    let tc = chars_of(text.as_str());
    let prefix = chars_of("Python ");
    proof {
        reveal_strlit("Python ");
    }
    let version = chars_remove_all(tc.as_slice(), prefix.as_slice());
    Runtime { name: py.display(), version: string_of(version.as_slice()) }
}

/// The interpreter of a cached environment.
pub fn python_bin(env: &FsPath, platform: Platform) -> (p: FsPath)
    ensures
        platform == Platform::Windows ==> p@ == env@.push("Scripts"@).push("python.exe"@),
        platform == Platform::Unix ==> p@ == env@.push("bin"@).push("python"@),
{
    if platform == Platform::Windows {
        env.join("Scripts").join("python.exe")
    } else {
        env.join("bin").join("python")
    }
}

/// The normalized form of a distribution name: lowercase, with `_` and `.`
/// made `-`.
pub open spec fn canonical_name(name: Seq<char>) -> Seq<char> {
    lowercase(name).map_values(|c: char| if c == '_' || c == '.' { '-' } else { c })
}

/// The normalized form of a distribution name.
pub fn canonical(name: &str) -> (r: String)
    ensures
        r@ == canonical_name(name@),
{
    let lower = to_lowercase(name);
    let lc = chars_of(lower.as_str());
    let mut out: Vec<char> = Vec::new();
    let mut i: usize = 0;
    while i < lc.len()
        invariant
            i <= lc@.len(),
            lc@ == lowercase(name@),
            out@ == lc@.take(i as int).map_values(
                |c: char| if c == '_' || c == '.' { '-' } else { c },
            ),
        decreases lc@.len() - i,
    {
        let c = lc[i];
        out.push(if c == '_' || c == '.' { '-' } else { c });
        assert(out@ =~= lc@.take(i + 1).map_values(
            |c: char| if c == '_' || c == '.' { '-' } else { c },
        ));
        i = i + 1;
    }
    assert(lc@.take(i as int) =~= lc@);
    string_of(out.as_slice())
}


/// The name and version of a `pip freeze` line `name==version`.
pub open spec fn freeze_pair(line: Seq<char>) -> Option<(Seq<char>, Seq<char>)> {
    match find_sub(line, "=="@) {
        Some(i) => Some((line.take(i), line.skip(i + 2))),
        None => None,
    }
}

/// A `pip freeze` line `name==version`, with no `=` in the name, gives that
/// name and that version; a line without `==` gives nothing.
pub proof fn freeze_lines_split_at_the_double_equals(name: Seq<char>, version: Seq<char>, line: Seq<char>)
    ensures
        !name.contains('=') ==> freeze_pair(name + "=="@ + version) == Some((name, version)),
        find_sub(line, "=="@) is None ==> freeze_pair(line) is None,
{
    if !name.contains('=') {
        reveal_strlit("==");
        let l = name + "=="@ + version;
        assert(l.subrange(name.len() as int, name.len() + 2int) =~= "=="@);
        crate::util::text::lemma_find_sub_first(l, "=="@, name.len() as int);
        crate::util::text::lemma_find_sub_occurs(l, "=="@);
        let k = find_sub(l, "=="@)->0;
        if k < name.len() {
            assert(l.subrange(k, k + 2)[0] == l[k]);
            assert(l[k] == name[k]);
        }
        assert(l.take(name.len() as int) =~= name);
        assert(l.skip(name.len() + 2int) =~= version);
    }
}

/// The last requested package whose canonical name is `key`.
pub open spec fn owner(packages: Seq<Seq<char>>, key: Seq<char>) -> Option<Seq<char>>
    decreases packages.len(),
{
    if packages.len() == 0 {
        None
    } else if canonical_name(packages.last()) == key {
        Some(packages.last())
    } else {
        owner(packages.drop_last(), key)
    }
}

/// The versions that freeze lines give the requested packages, later lines
/// overriding earlier ones.
pub open spec fn frozen_map(ls: Seq<Seq<char>>, packages: Seq<Seq<char>>) -> Map<Seq<char>, Seq<char>>
    decreases ls.len(),
{
    if ls.len() == 0 {
        Map::empty()
    } else {
        let m = frozen_map(ls.drop_last(), packages);
        match freeze_pair(ls.last()) {
            Some(pair) => match owner(packages, canonical_name(pair.0)) {
                Some(o) => m.insert(o, pair.1),
                None => m,
            },
            None => m,
        }
    }
}

/// The versions that `pip freeze` output gives the requested packages.
pub open spec fn frozen_versions(output: Seq<char>, packages: Seq<Seq<char>>) -> Map<Seq<char>, Seq<char>> {
    frozen_map(lines(output), packages)
}

/// The requested packages that the output gives no version, in order.
pub open spec fn unfrozen(output: Seq<char>, packages: Seq<Seq<char>>) -> Seq<Seq<char>> {
    packages.filter(|p: Seq<char>| !frozen_versions(output, packages).contains_key(p))
}

/// The index of the last package whose canonical form (`canon`) is `key`.
fn owner_index(names: Ghost<Seq<Seq<char>>>, canon: &Vec<String>, key: &str) -> (r: Option<usize>)
    requires
        canon@.len() == names@.len(),
        forall|i: int| 0 <= i < canon@.len() ==> #[trigger] canon@[i]@ == canonical_name(names@[i]),
    ensures
        match r {
            Some(j) => j < names@.len() && owner(names@, key@) == Some(names@[j as int]),
            None => owner(names@, key@) is None,
        },
{
    let mut found: Option<usize> = None;
    let mut i: usize = 0;
    while i < canon.len()
        invariant
            i <= canon@.len(),
            canon@.len() == names@.len(),
            forall|k: int| 0 <= k < canon@.len() ==> #[trigger] canon@[k]@ == canonical_name(names@[k]),
            match found {
                Some(j) => j < i && owner(names@.take(i as int), key@) == Some(names@[j as int]),
                None => owner(names@.take(i as int), key@) is None,
            },
        decreases canon@.len() - i,
    {
        assert(names@.take(i + 1).drop_last() =~= names@.take(i as int));
        assert(names@.take(i + 1).last() == names@[i as int]);
        if crate::util::text::str_eq(canon[i].as_str(), key) {
            found = Some(i);
        }
        i = i + 1;
    }
    assert(names@.take(i as int) =~= names@);
    found
}

/// The exact versions that `pip freeze` output gives the requested
/// packages; the packages it gives none are refused, all named.
pub fn select_frozen(output: &str, packages: &[String]) -> (r: Result<PackageMap, CapsuleError>)
    ensures
        r is Ok <==> unfrozen(output@, packages@.map_values(|s: String| s@)).len() == 0,
        r matches Ok(m) ==> m.wf() && m.map() == frozen_versions(
            output@,
            packages@.map_values(|s: String| s@),
        ),
        r matches Err(e) ==> e matches CapsuleError::UnfrozenVersions(missing) && missing@.map_values(
            |s: String| s@,
        ) == unfrozen(output@, packages@.map_values(|s: String| s@)),
{
    let ghost names = packages@.map_values(|s: String| s@);
    let mut canon: Vec<String> = Vec::new();
    let mut c: usize = 0;
    while c < packages.len()
        invariant
            c <= packages@.len(),
            names == packages@.map_values(|s: String| s@),
            canon@.len() == c,
            forall|k: int| 0 <= k < c ==> #[trigger] canon@[k]@ == canonical_name(names[k]),
        decreases packages@.len() - c,
    {
        assert(packages@[c as int]@ == names[c as int]);
        canon.push(canonical(packages[c].as_str()));
        c = c + 1;
    }
    let text = chars_of(output);
    let ls = chars_lines(text.as_slice());
    let ghost lv = lines(output@);
    let sep = chars_of("==");
    proof {
        reveal_strlit("==");
    }
    let mut versions = PackageMap::new();
    assert(frozen_map(lv.take(0), names) =~= Map::<Seq<char>, Seq<char>>::empty());
    let mut k: usize = 0;
    while k < ls.len()
        invariant
            k <= ls@.len(),
            ls@.len() == lv.len(),
            lv == lines(output@),
            forall|j: int| 0 <= j < ls@.len() ==> #[trigger] ls@[j]@ == lv[j],
            names == packages@.map_values(|s: String| s@),
            canon@.len() == names.len(),
            forall|j: int| 0 <= j < canon@.len() ==> #[trigger] canon@[j]@ == canonical_name(names[j]),
            sep@ == "=="@,
            sep@.len() == 2,
            versions.wf(),
            versions.map() == frozen_map(lv.take(k as int), names),
        decreases ls@.len() - k,
    {
        let line = &ls[k];
        assert(lv.take(k + 1).drop_last() =~= lv.take(k as int));
        assert(lv.take(k + 1).last() == line@);
        match chars_find(line.as_slice(), sep.as_slice()) {
            Some(i) => {
                let ll = line.len();
                assert(i + 2 <= ll);
                let name = slice_vec(line.as_slice(), 0, i);
                let version = slice_vec(line.as_slice(), i + 2, ll);
                assert(name@ =~= line@.take(i as int));
                assert(version@ =~= line@.skip(i + 2));
                let key = canonical(string_of(name.as_slice()).as_str());
                match owner_index(Ghost(names), &canon, key.as_str()) {
                    Some(j) => {
                        assert(packages@[j as int]@ == names[j as int]);
                        versions.insert(
                            packages[j].clone(),
                            Package { version: string_of(version.as_slice()) },
                        );
                    },
                    None => {},
                }
            },
            None => {},
        }
        k = k + 1;
    }
    assert(lv.take(k as int) =~= lv);
    let ghost frozen = frozen_versions(output@, names);
    let mut missing: Vec<String> = Vec::new();
    let mut i: usize = 0;
    while i < packages.len()
        invariant
            i <= packages@.len(),
            names == packages@.map_values(|s: String| s@),
            versions.wf(),
            versions.map() == frozen,
            frozen == frozen_versions(output@, names),
            missing@.map_values(|s: String| s@) == names.take(i as int).filter(
                |p: Seq<char>| !frozen.contains_key(p),
            ),
        decreases packages@.len() - i,
    {
        proof {
            reveal_with_fuel(Seq::filter, 1);
            assert(names.take(i + 1).drop_last() =~= names.take(i as int));
        }
        assert(packages@[i as int]@ == names[i as int]);
        if !versions.contains_key(packages[i].as_str()) {
            let ghost before = missing@;
            let m = packages[i].clone();
            proof {
                crate::util::text::lemma_push_texts(before, m);
            }
            missing.push(m);
        }
        assert(missing@.map_values(|s: String| s@) =~= names.take(i + 1).filter(
            |p: Seq<char>| !frozen.contains_key(p),
        ));
        i = i + 1;
    }
    assert(names.take(i as int) =~= names);
    assert(missing@.map_values(|s: String| s@) =~= unfrozen(output@, names));
    if missing.len() > 0 {
        return Err(CapsuleError::UnfrozenVersions(missing));
    }
    Ok(versions)
}


proof fn lemma_owner_is_requested(packages: Seq<Seq<char>>, key: Seq<char>)
    ensures
        owner(packages, key) matches Some(o) ==> packages.contains(o),
    decreases packages.len(),
{
    if packages.len() > 0 {
        lemma_owner_is_requested(packages.drop_last(), key);
        if let Some(o) = owner(packages.drop_last(), key) {
            let j = choose|j: int| 0 <= j < packages.drop_last().len() && packages.drop_last()[j] == o;
            assert(packages[j] == o);
        }
        assert(packages[packages.len() - 1] == packages.last());
    }
}

proof fn lemma_frozen_keys_are_requested(ls: Seq<Seq<char>>, packages: Seq<Seq<char>>)
    ensures
        forall|k: Seq<char>| #[trigger] frozen_map(ls, packages).contains_key(k) ==> packages.contains(k),
    decreases ls.len(),
{
    if ls.len() > 0 {
        lemma_frozen_keys_are_requested(ls.drop_last(), packages);
        let m = frozen_map(ls.drop_last(), packages);
        if let Some(pair) = freeze_pair(ls.last()) {
            lemma_owner_is_requested(packages, canonical_name(pair.0));
            assert forall|k: Seq<char>| #[trigger] frozen_map(ls, packages).contains_key(k) implies packages.contains(k) by {
                if !m.contains_key(k) {
                    assert(owner(packages, canonical_name(pair.0)) == Some(k));
                }
            }
        }
    }
}

/// When `pip freeze` gave every requested package a version, the pins are
/// exactly the requested packages.
pub proof fn frozen_pins_exactly_the_packages(output: Seq<char>, packages: Seq<Seq<char>>)
    requires
        unfrozen(output, packages).len() == 0,
    ensures
        frozen_versions(output, packages).dom() == packages.to_set(),
{
    lemma_frozen_keys_are_requested(lines(output), packages);
    let frozen = frozen_versions(output, packages);
    assert forall|k: Seq<char>| packages.to_set().contains(k) implies frozen.dom().contains(k) by {
        let i = choose|i: int| 0 <= i < packages.len() && packages[i] == k;
        if !frozen.contains_key(k) {
            packages.lemma_filter_contains(|p: Seq<char>| !frozen.contains_key(p), i);
        }
    }
    assert(frozen.dom() =~= packages.to_set());
}

} // verus!
