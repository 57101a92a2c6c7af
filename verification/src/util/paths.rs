//! Paths as sequences of components, and the home of Capsule's caches.
use vstd::prelude::*;

use crate::error::CapsuleError;
use crate::util::text::lemma_push_texts;

verus! {

/// A filesystem path as its components (`Path::components`, each as text):
/// joining appends components, a prefix of components is an ancestor.
pub struct FsPath {
    pub components: Vec<String>,
}

impl View for FsPath {
    type V = Seq<Seq<char>>;

    open spec fn view(&self) -> Seq<Seq<char>> {
        self.components@.map_values(|s: String| s@)
    }
}

/// Copies the texts of `v`.
pub fn clone_strings(v: &[String]) -> (r: Vec<String>)
    ensures
        r@.map_values(|s: String| s@) == v@.map_values(|s: String| s@),
{
    let mut r: Vec<String> = Vec::new();
    let mut i: usize = 0;
    while i < v.len()
        invariant
            i <= v@.len(),
            r@.map_values(|s: String| s@) == v@.take(i as int).map_values(|s: String| s@),
        decreases v@.len() - i,
    {
        let c = v[i].clone();
        proof {
            lemma_push_texts(r@, c);
            assert(v@.take(i + 1) =~= v@.take(i as int).push(v@[i as int]));
            lemma_push_texts(v@.take(i as int), v@[i as int]);
        }
        r.push(c);
        i = i + 1;
    }
    assert(v@.take(i as int) =~= v@);
    r
}

impl FsPath {
    /// A copy of the path.
    pub fn duplicate(&self) -> (p: FsPath)
        ensures
            p@ == self@,
    {
        FsPath { components: clone_strings(self.components.as_slice()) }
    }

    /// The path with one more component (`Path::join` of a relative name).
    pub fn join(&self, name: &str) -> (p: FsPath)
        ensures
            p@ == self@.push(name@),
    {
        let mut components = clone_strings(self.components.as_slice());
        components.push(name.to_owned());
        let p = FsPath { components };
        assert(p@ =~= self@.push(name@));
        p
    }

    /// The path followed by the components of `rest`.
    pub fn join_path(&self, rest: &FsPath) -> (p: FsPath)
        ensures
            p@ == self@ + rest@,
    {
        let mut components = clone_strings(self.components.as_slice());
        let mut i: usize = 0;
        while i < rest.components.len()
            invariant
                i <= rest@.len(),
                components@.map_values(|s: String| s@) == self@ + rest@.take(i as int),
            decreases rest@.len() - i,
        {
            let c = rest.components[i].clone();
            proof {
                lemma_push_texts(components@, c);
                assert(rest@.take(i + 1) =~= rest@.take(i as int).push(c@));
            }
            components.push(c);
            i = i + 1;
        }
        assert(rest@.take(i as int) =~= rest@);
        FsPath { components }
    }

    /// The components after `base` when `base` is a prefix of the path
    /// (`Path::strip_prefix`).
    pub fn strip_prefix(&self, base: &FsPath) -> (r: Option<FsPath>)
        ensures
            match r {
                Some(rest) => base@ + rest@ == self@,
                None => !base@.is_prefix_of(self@),
            },
    {
        if base.components.len() > self.components.len() {
            return None;
        }
        let mut i: usize = 0;
        while i < base.components.len()
            invariant
                i <= base@.len() <= self@.len(),
                forall|k: int| 0 <= k < i ==> base@[k] == self@[k],
            decreases base@.len() - i,
        {
            if !crate::util::text::str_eq(base.components[i].as_str(), self.components[i].as_str()) {
                assert(base@[i as int] != self@[i as int]);
                return None;
            }
            i = i + 1;
        }
        let mut rest: Vec<String> = Vec::new();
        let mut j: usize = base.components.len();
        while j < self.components.len()
            invariant
                base@.len() <= j <= self@.len(),
                rest@.map_values(|s: String| s@) == self@.subrange(base@.len() as int, j as int),
            decreases self@.len() - j,
        {
            let c = self.components[j].clone();
            proof {
                lemma_push_texts(rest@, c);
                assert(self@.subrange(base@.len() as int, j + 1) =~= self@.subrange(
                    base@.len() as int,
                    j as int,
                ).push(c@));
            }
            rest.push(c);
            j = j + 1;
        }
        let r = FsPath { components: rest };
        assert(base@ + r@ =~= self@);
        Some(r)
    }
}

/// The home directory of the current user, with `dirs::home_dir`, as its
/// components. It depends on the environment, so nothing is stated of it.
#[verifier::external_body]
fn home_dir() -> (r: Option<FsPath>) {
    dirs::home_dir().map(
        |home| FsPath {
            components: home.components().map(|c| c.as_os_str().to_string_lossy().into_owned()).collect(),
        },
    )
}

/// The directory of Capsule's state under a home directory.
pub open spec fn capsule_home_under(home: Seq<Seq<char>>) -> Seq<Seq<char>> {
    home.push(".capsule"@)
}

/// `.capsule` under the home directory of the user.
pub fn capsule_home() -> (r: Result<FsPath, CapsuleError>)
    ensures
        match r {
            Ok(p) => exists|home: Seq<Seq<char>>| p@ == capsule_home_under(home),
            Err(e) => e == CapsuleError::NoHomeDirectory,
        },
{
    match home_dir() {
        Some(home) => Ok(capsule_home_in(&home)),
        None => Err(CapsuleError::NoHomeDirectory),
    }
}

/// `.capsule` under the given home directory.
pub fn capsule_home_in(home: &FsPath) -> (r: FsPath)
    ensures
        r@ == capsule_home_under(home@),
{
    home.join(".capsule")
}

} // verus!
