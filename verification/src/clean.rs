//! Which cache directories a clean removes.
use vstd::prelude::*;

use crate::util::paths::FsPath;

verus! {

/// The directories that `capsule clean` removes under the Capsule home:
/// all of it with `--all` or with no language chosen; otherwise `python`
/// for Python, and `node` and `typescript` for Node.js.
pub fn clean_targets(home: &FsPath, python: bool, node: bool, all: bool) -> (r: Vec<FsPath>)
    ensures
        all || (!python && !node) ==> r@.len() == 1 && r@[0]@ == home@,
        !(all || (!python && !node)) ==> r@.map_values(|p: FsPath| p@) == (if python {
            seq![home@.push("python"@)]
        } else {
            Seq::<Seq<Seq<char>>>::empty()
        }) + (if node {
            seq![home@.push("node"@), home@.push("typescript"@)]
        } else {
            Seq::<Seq<Seq<char>>>::empty()
        }),
{
    let mut r: Vec<FsPath> = Vec::new();
    if all || (!python && !node) {
        r.push(home.duplicate());
        return r;
    }
    if python {
        r.push(home.join("python"));
    }
    if node {
        r.push(home.join("node"));
        r.push(home.join("typescript"));
    }
    assert(r@.map_values(|p: FsPath| p@) =~= (if python {
        seq![home@.push("python"@)]
    } else {
        Seq::<Seq<Seq<char>>>::empty()
    }) + (if node {
        seq![home@.push("node"@), home@.push("typescript"@)]
    } else {
        Seq::<Seq<Seq<char>>>::empty()
    }));
    r
}

} // verus!
