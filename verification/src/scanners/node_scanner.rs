//! Import scanning of JavaScript and TypeScript sources.
use vstd::prelude::*;

use crate::resolver::node_resolver::{package_root, package_root_of};
use crate::util::name_set::{strictly_sorted, NameSet};
use crate::util::patterns::{captured, push_captures, regex_group_one};
use crate::util::text::{chars_of, chars_starts_with, starts_with, str_eq};

verus! {

/// `from "x"` / `from 'x'` anywhere in a line.
pub open spec fn from_pattern() -> Seq<char> {
    r#"(?m)\bfrom\s*["']([^"']+)["']"#@
}

/// `import "x"` at the start of a line.
pub open spec fn bare_import_pattern() -> Seq<char> {
    r#"(?m)^\s*import\s*["']([^"']+)["']"#@
}

/// `require("x")`.
pub open spec fn require_pattern() -> Seq<char> {
    r#"require\(\s*["']([^"']+)["']\s*\)"#@
}

/// The module specifiers of a source: those after `from`, then those of bare
/// imports, then those of `require` calls.
pub open spec fn js_specifiers(source: Seq<char>) -> Seq<Seq<char>> {
    captured(regex_group_one(from_pattern(), source)) + captured(
        regex_group_one(bare_import_pattern(), source),
    ) + captured(regex_group_one(require_pattern(), source))
}

/// Node.js built-in modules that are never installed.
pub open spec fn builtin_names() -> Seq<Seq<char>> {
    seq![
        "fs"@, "path"@, "http"@, "https"@, "crypto"@, "url"@, "os"@, "util"@, "events"@,
        "stream"@,
    ]
}

/// Whether `name` is a Node.js built-in module.
pub fn is_builtin(name: &str) -> (b: bool)
    ensures
        b == builtin_names().contains(name@),
{
    let names: Vec<&str> = vec![
        "fs", "path", "http", "https", "crypto", "url", "os", "util", "events", "stream",
    ];
    assert(names@.map_values(|s: &str| s@) =~= builtin_names());
    let mut i: usize = 0;
    while i < names.len()
        invariant
            i <= names@.len(),
            names@.map_values(|s: &str| s@) == builtin_names(),
            forall|k: int| 0 <= k < i ==> builtin_names()[k] != name@,
        decreases names@.len() - i,
    {
        if str_eq(name, names[i]) {
            assert(builtin_names()[i as int] == name@);
            return true;
        }
        i = i + 1;
    }
    false
}

/// A relative or absolute specifier: a file of the project, not a package.
pub open spec fn is_path_specifier(specifier: Seq<char>) -> bool {
    starts_with(specifier, "./"@) || starts_with(specifier, "../"@) || starts_with(
        specifier,
        "/"@,
    )
}

/// The package that a specifier brings in, unless it is a path, a built-in
/// module or a `node:` module.
pub open spec fn specifier_package(specifier: Seq<char>) -> Option<Seq<char>> {
    if is_path_specifier(specifier) {
        None
    } else {
        let package = package_root_of(specifier);
        if builtin_names().contains(package) || starts_with(package, "node:"@) {
            None
        } else {
            Some(package)
        }
    }
}

/// Whether the specifier is a path.
pub fn is_path(specifier: &str) -> (b: bool)
    ensures
        b == is_path_specifier(specifier@),
{
    let s = chars_of(specifier);
    let dot = chars_of("./");
    let dotdot = chars_of("../");
    let slash = chars_of("/");
    chars_starts_with(s.as_slice(), dot.as_slice()) || chars_starts_with(
        s.as_slice(),
        dotdot.as_slice(),
    ) || chars_starts_with(s.as_slice(), slash.as_slice())
}

/// The package that `specifier` brings in, if any.
pub fn package_of_specifier(specifier: &str) -> (r: Option<String>)
    ensures
        match r {
            Some(p) => specifier_package(specifier@) == Some(p@),
            None => specifier_package(specifier@) is None,
        },
{
    if is_path(specifier) {
        return None;
    }
    let package = package_root(specifier);
    let pc = chars_of(package.as_str());
    let node_prefix = chars_of("node:");
    if is_builtin(package.as_str()) || chars_starts_with(pc.as_slice(), node_prefix.as_slice()) {
        None
    } else {
        Some(package)
    }
}

/// The packages that the specifiers bring in.
pub open spec fn specifiers_packages(specifiers: Seq<Seq<char>>) -> Set<Seq<char>> {
    Set::new(
        |n: Seq<char>|
            exists|i: int|
                0 <= i < specifiers.len() && specifier_package(#[trigger] specifiers[i]) == Some(n),
    )
}

/// The packages that a JavaScript or TypeScript source imports.
pub open spec fn source_packages(source: Seq<char>) -> Set<Seq<char>> {
    specifiers_packages(js_specifiers(source))
}

/// The packages that a set of sources imports.
pub open spec fn sources_packages(sources: Seq<Seq<char>>) -> Set<Seq<char>> {
    Set::new(
        |n: Seq<char>|
            exists|k: int| 0 <= k < sources.len() && #[trigger] source_packages(sources[k]).contains(n),
    )
}

/// Adds the packages that a JavaScript or TypeScript source imports.
pub fn scan_source(source: &str, packages: &mut NameSet)
    requires
        old(packages).wf(),
    ensures
        final(packages).wf(),
        final(packages)@.to_set() == old(packages)@.to_set().union(source_packages(source@)),
{
    let ghost start = packages@.to_set();
    let mut specifiers: Vec<String> = Vec::new();
    push_captures(r#"(?m)\bfrom\s*["']([^"']+)["']"#, source, &mut specifiers);
    push_captures(r#"(?m)^\s*import\s*["']([^"']+)["']"#, source, &mut specifiers);
    push_captures(r#"require\(\s*["']([^"']+)["']\s*\)"#, source, &mut specifiers);
    let ghost specs = specifiers@.map_values(|s: String| s@);
    assert(specs =~= js_specifiers(source@));
    let mut i: usize = 0;
    while i < specifiers.len()
        invariant
            i <= specifiers@.len(),
            specs == specifiers@.map_values(|s: String| s@),
            packages.wf(),
            packages@.to_set() == start.union(specifiers_packages(specs.take(i as int))),
        decreases specifiers@.len() - i,
    {
        let ghost before = packages@.to_set();
        let found = package_of_specifier(specifiers[i].as_str());
        assert(specifiers@[i as int]@ == specs[i as int]);
        if let Some(p) = found {
            packages.insert(chars_of(p.as_str()));
        }
        proof {
            let prev = specs.take(i as int);
            let next = specs.take(i + 1);
            assert forall|n: Seq<char>| specifiers_packages(next).contains(n) implies #[trigger] packages@.to_set().contains(n) by {
                let k = choose|k: int| 0 <= k < next.len() && specifier_package(#[trigger] next[k]) == Some(n);
                if k < i {
                    assert(prev[k] == next[k]);
                    assert(specifiers_packages(prev).contains(n));
                }
            }
            assert forall|n: Seq<char>| packages@.to_set().contains(n) && !start.contains(n) implies #[trigger] specifiers_packages(next).contains(n) by {
                if before.contains(n) {
                    let k = choose|k: int| 0 <= k < prev.len() && specifier_package(#[trigger] prev[k]) == Some(n);
                    assert(next[k] == prev[k]);
                } else {
                    assert(next[i as int] == specs[i as int]);
                }
            }
            assert(packages@.to_set() =~= start.union(specifiers_packages(next)));
        }
        i = i + 1;
    }
    assert(specs.take(i as int) =~= specs);
}

/// The packages that the JavaScript and TypeScript sources of a path import,
/// in ascending order without repeats.
pub fn scan_path(sources: &Vec<String>) -> (r: Vec<String>)
    ensures
        strictly_sorted(r@.map_values(|s: String| s@)),
        r@.map_values(|s: String| s@).to_set() == sources_packages(
            sources@.map_values(|s: String| s@),
        ),
{
    let ghost srcs = sources@.map_values(|s: String| s@);
    let mut packages = NameSet::new();
    let mut i: usize = 0;
    while i < sources.len()
        invariant
            i <= sources@.len(),
            srcs == sources@.map_values(|s: String| s@),
            packages.wf(),
            packages@.to_set() == Set::new(
                |n: Seq<char>|
                    exists|k: int| 0 <= k < i && #[trigger] source_packages(srcs[k]).contains(n),
            ),
        decreases sources@.len() - i,
    {
        let ghost before = packages@.to_set();
        scan_source(sources[i].as_str(), &mut packages);
        proof {
            let next = Set::new(
                |n: Seq<char>|
                    exists|k: int| 0 <= k < i + 1 && #[trigger] source_packages(srcs[k]).contains(n),
            );
            assert(sources@[i as int]@ == srcs[i as int]);
            assert forall|n: Seq<char>| next.contains(n) implies packages@.to_set().contains(n) by {
                let k = choose|k: int| 0 <= k < i + 1 && #[trigger] source_packages(srcs[k]).contains(n);
                if k < i {
                    assert(before.contains(n));
                }
            }
            assert forall|n: Seq<char>| packages@.to_set().contains(n) implies next.contains(n) by {
                if before.contains(n) {
                    let k = choose|k: int| 0 <= k < i && #[trigger] source_packages(srcs[k]).contains(n);
                    assert(0 <= k < i + 1 && source_packages(srcs[k]).contains(n));
                } else {
                    assert(source_packages(srcs[i as int]).contains(n));
                }
            }
            assert(packages@.to_set() =~= next);
        }
        i = i + 1;
    }
    assert(packages@.to_set() =~= sources_packages(srcs));
    let r = packages.to_strings();
    assert(r@.map_values(|s: String| s@) =~= packages@);
    r
}


/// Every package a JavaScript or TypeScript scan reports is installable:
/// neither a Node.js built-in module nor a `node:` module.
pub proof fn scanned_packages_are_installable(sources: Seq<Seq<char>>, name: Seq<char>)
    requires
        sources_packages(sources).contains(name),
    ensures
        !builtin_names().contains(name),
        !starts_with(name, "node:"@),
{
    let k = choose|k: int| 0 <= k < sources.len() && #[trigger] source_packages(sources[k]).contains(name);
    let specs = js_specifiers(sources[k]);
    let i = choose|i: int| 0 <= i < specs.len() && specifier_package(#[trigger] specs[i]) == Some(name);
}

/// The Node.js built-in modules `fs`, `path`, `http`, `https`, `crypto`,
/// `url`, `os`, `util`, `events` and `stream` are never reported by a scan,
/// whatever the sources: `require("path")` never leads to installing the
/// npm package `path`.
pub proof fn builtin_modules_are_never_scanned(sources: Seq<Seq<char>>, name: Seq<char>)
    requires
        seq![
            "fs"@, "path"@, "http"@, "https"@, "crypto"@, "url"@, "os"@, "util"@, "events"@,
            "stream"@,
        ].contains(name),
    ensures
        !sources_packages(sources).contains(name),
{
    assert(seq![
        "fs"@, "path"@, "http"@, "https"@, "crypto"@, "url"@, "os"@, "util"@, "events"@,
        "stream"@,
    ] =~= builtin_names());
    if sources_packages(sources).contains(name) {
        scanned_packages_are_installable(sources, name);
    }
}

/// A relative or absolute specifier (`./x`, `../x`, `/x`) names a file of
/// the project and never a package to install.
pub proof fn path_specifiers_are_never_packages(specifier: Seq<char>)
    requires
        starts_with(specifier, "./"@) || starts_with(specifier, "../"@) || starts_with(
            specifier,
            "/"@,
        ),
    ensures
        specifier_package(specifier) is None,
{
}

} // verus!
