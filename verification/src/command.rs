//! Names of the external commands that Capsule runs.
use vstd::prelude::*;

use crate::util::text::{chars_of, chars_trim, concat, str_eq, string_of, trim};

verus! {

/// The operating system family that commands are looked up for.
#[derive(Debug, Clone, Copy, PartialEq, Eq, Structural)]
pub enum Platform {
    Windows,
    /// Any other system.
    Unix,
}

/// The Node.js package managers, which Windows runs through `.cmd` shims.
pub open spec fn is_node_package_manager(name: Seq<char>) -> bool {
    name == "pnpm"@ || name == "npm"@ || name == "npx"@
}

/// The name under which a command is run on `platform`.
pub open spec fn platform_name(name: Seq<char>, platform: Platform) -> Seq<char> {
    if platform == Platform::Windows && is_node_package_manager(name) {
        name + ".cmd"@
    } else {
        name
    }
}

/// Whether `name` is pnpm, npm or npx.
fn node_package_manager(name: &str) -> (b: bool)
    ensures
        b == is_node_package_manager(name@),
{
    str_eq(name, "pnpm") || str_eq(name, "npm") || str_eq(name, "npx")
}

/// The name under which the command `name` is run: `pnpm.cmd`, `npm.cmd`
/// and `npx.cmd` on Windows, the name itself otherwise.
pub fn platform_command_name(name: &str, platform: Platform) -> (r: String)
    ensures
        r@ == platform_name(name@, platform),
{
    if platform == Platform::Windows && node_package_manager(name) {
        concat(name, ".cmd")
    } else {
        name.to_owned()
    }
}

/// The names tried, in order, when looking a command up: the platform name,
/// then on Windows the plain name of a Node.js package manager.
pub open spec fn candidate_names(name: Seq<char>, platform: Platform) -> Seq<Seq<char>> {
    if platform == Platform::Windows && is_node_package_manager(name) {
        seq![platform_name(name, platform), name]
    } else {
        seq![platform_name(name, platform)]
    }
}

/// The names to look the command `name` up under, in order.
pub fn command_candidates(name: &str, platform: Platform) -> (r: Vec<String>)
    ensures
        r@.map_values(|s: String| s@) == candidate_names(name@, platform),
{
    let mut r: Vec<String> = Vec::new();
    r.push(platform_command_name(name, platform));
    if platform == Platform::Windows && node_package_manager(name) {
        r.push(name.to_owned());
    }
    assert(r@.map_values(|s: String| s@) =~= candidate_names(name@, platform));
    r
}

/// The first of the command's candidate names that `available` finds
/// (the lookup on the `PATH`, which the caller performs).
pub fn resolve_command<F: Fn(&str) -> bool>(name: &str, platform: Platform, available: &F) -> (r:
    Option<String>)
    requires
        forall|s: &str| available.requires((s,)),
    ensures
        match r {
            Some(c) => exists|i: int|
                0 <= i < candidate_names(name@, platform).len() && candidate_names(name@, platform)[i]
                    == c@ && (exists|s: &str| s@ == c@ && available.ensures((s,), true)) && forall|
                    j: int,
                |
                    0 <= j < i ==> exists|s: &str|
                        s@ == #[trigger] candidate_names(name@, platform)[j] && available.ensures(
                            (s,),
                            false,
                        ),
            None => forall|j: int|
                0 <= j < candidate_names(name@, platform).len() ==> exists|s: &str|
                    s@ == #[trigger] candidate_names(name@, platform)[j] && available.ensures(
                        (s,),
                        false,
                    ),
        },
{
    let candidates = command_candidates(name, platform);
    let ghost names = candidate_names(name@, platform);
    let mut i: usize = 0;
    while i < candidates.len()
        invariant
            i <= candidates@.len(),
            candidates@.map_values(|s: String| s@) == names,
            names == candidate_names(name@, platform),
            forall|s: &str| available.requires((s,)),
            forall|j: int|
                0 <= j < i ==> exists|s: &str|
                    s@ == #[trigger] names[j] && available.ensures((s,), false),
        decreases candidates@.len() - i,
    {
        let c = candidates[i].as_str();
        assert(c@ == names[i as int]);
        if available(c) {
            return Some(candidates[i].clone());
        }
        i = i + 1;
    }
    None
}

/// Whether the command `name` is found under one of its candidate names.
pub fn command_exists<F: Fn(&str) -> bool>(name: &str, platform: Platform, available: &F) -> (b: bool)
    requires
        forall|s: &str| available.requires((s,)),
    ensures
        !b ==> forall|j: int|
            0 <= j < candidate_names(name@, platform).len() ==> exists|s: &str|
                s@ == #[trigger] candidate_names(name@, platform)[j] && available.ensures((s,), false),
        b ==> exists|s: &str|
            candidate_names(name@, platform).contains(s@) && available.ensures((s,), true),
{
    let r = resolve_command(name, platform, available);
    proof {
        if let Some(c) = &r {
            let i = choose|i: int|
                0 <= i < candidate_names(name@, platform).len() && candidate_names(name@, platform)[i]
                    == c@ && (exists|s: &str| s@ == c@ && available.ensures((s,), true)) && forall|
                    j: int,
                |
                    0 <= j < i ==> exists|s: &str|
                        s@ == #[trigger] candidate_names(name@, platform)[j] && available.ensures(
                            (s,),
                            false,
                        );
            let s = choose|s: &str| s@ == c@ && available.ensures((s,), true);
            assert(candidate_names(name@, platform)[i] == s@);
        }
    }
    r.is_some()
}

/// What a successful command reported: its trimmed standard output, or when
/// that is empty its trimmed standard error, or nothing.
pub open spec fn reported_output(stdout: Seq<char>, stderr: Seq<char>) -> Option<Seq<char>> {
    if trim(stdout).len() > 0 {
        Some(trim(stdout))
    } else if trim(stderr).len() > 0 {
        Some(trim(stderr))
    } else {
        None
    }
}

/// What a successful command reported.
pub fn select_command_output(stdout: &str, stderr: &str) -> (r: Option<String>)
    ensures
        match r {
            Some(s) => reported_output(stdout@, stderr@) == Some(s@),
            None => reported_output(stdout@, stderr@) is None,
        },
{
    let out = chars_of(stdout);
    let out = chars_trim(out.as_slice());
    if out.len() > 0 {
        return Some(string_of(out.as_slice()));
    }
    let err = chars_of(stderr);
    let err = chars_trim(err.as_slice());
    if err.len() > 0 {
        return Some(string_of(err.as_slice()));
    }
    None
}

/// On Windows, `npm`, `npx` and `pnpm` run as `npm.cmd`, `npx.cmd` and
/// `pnpm.cmd`, and every other command under its own name; elsewhere every
/// command runs under its own name.
pub proof fn node_package_managers_run_through_cmd_shims(name: Seq<char>)
    ensures
        platform_name(name, Platform::Unix) == name,
        platform_name(name, Platform::Windows) == if name == "npm"@ || name == "npx"@ || name
            == "pnpm"@ {
            name + ".cmd"@
        } else {
            name
        },
{
}

} // verus!
