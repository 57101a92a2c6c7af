//! Where the cached environments of each language live.
use vstd::prelude::*;

use crate::detector::{language_name, Language};
use crate::error::CapsuleError;
use crate::util::paths::{capsule_home, capsule_home_under, FsPath};

verus! {

/// `<home>/.capsule/<language>/envs`.
pub open spec fn language_cache_under(home: Seq<Seq<char>>, language: Language) -> Seq<Seq<char>> {
    capsule_home_under(home).push(language_name(language)).push("envs"@)
}

/// The directory of a language's cached environments under a Capsule home.
pub fn language_cache_in(capsule_home: &FsPath, language: Language) -> (p: FsPath)
    ensures
        p@ == capsule_home@.push(language_name(language)).push("envs"@),
{
    let dir = match language {
        Language::Python => capsule_home.join("python"),
        Language::Node => capsule_home.join("node"),
        Language::TypeScript => capsule_home.join("typescript"),
    };
    dir.join("envs")
}

/// The directory of a language's cached environments, without creating it.
pub fn language_cache_path(language: Language) -> (r: Result<FsPath, CapsuleError>)
    ensures
        match r {
            Ok(p) => exists|home: Seq<Seq<char>>| p@ == language_cache_under(home, language),
            Err(e) => e == CapsuleError::NoHomeDirectory,
        },
{
    let base = capsule_home()?;
    let ghost home = choose|home: Seq<Seq<char>>| base@ == capsule_home_under(home);
    let p = language_cache_in(&base, language);
    assert(p@ == language_cache_under(home, language));
    Ok(p)
}

/// The cached environment of a project with the given hash, without
/// creating anything.
pub fn env_path_no_create(language: Language, hash: &str) -> (r: Result<FsPath, CapsuleError>)
    ensures
        match r {
            Ok(p) => exists|home: Seq<Seq<char>>|
                p@ == language_cache_under(home, language).push(hash@),
            Err(e) => e == CapsuleError::NoHomeDirectory,
        },
{
    let cache = language_cache_path(language)?;
    let ghost home = choose|home: Seq<Seq<char>>| cache@ == language_cache_under(home, language);
    let p = cache.join(hash);
    assert(p@ == language_cache_under(home, language).push(hash@));
    Ok(p)
}

/// The cached environments live under `.capsule` in the home directory, in
/// a directory named after the language (`python`, `node`, `typescript`),
/// then `envs`.
pub proof fn caches_are_named_after_their_languages(home: Seq<Seq<char>>, language: Language)
    ensures
        language == Language::Python ==> language_cache_under(home, language) == home.push(
            ".capsule"@,
        ).push("python"@).push("envs"@),
        language == Language::Node ==> language_cache_under(home, language) == home.push(
            ".capsule"@,
        ).push("node"@).push("envs"@),
        language == Language::TypeScript ==> language_cache_under(home, language) == home.push(
            ".capsule"@,
        ).push("typescript"@).push("envs"@),
{
}

} // verus!
