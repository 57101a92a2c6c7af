//! `capsule.lock`: the pinned versions of a project's direct dependencies.
use vstd::prelude::*;

use crate::detector::Language;
use crate::util::order::{
    chars_lt, lemma_text_lt_irreflexive, lemma_text_lt_total, lemma_text_lt_transitive, text_lt,
};
use crate::util::paths::FsPath;
use crate::util::text::{chars_eq, chars_of};

verus! {

/// The interpreter that a lock was made with.
pub struct Runtime {
    pub name: String,
    pub version: String,
}

/// A pinned package.
pub struct Package {
    pub version: String,
}

/// Every key comes strictly before the keys after it.
pub open spec fn keys_sorted(e: Seq<(Seq<char>, Seq<char>)>) -> bool {
    forall|i: int, j: int| 0 <= i < j < e.len() ==> text_lt(#[trigger] e[i].0, #[trigger] e[j].0)
}

/// Some entry has the key `k`.
pub open spec fn has_key(e: Seq<(Seq<char>, Seq<char>)>, k: Seq<char>) -> bool {
    exists|i: int| 0 <= i < e.len() && #[trigger] e[i].0 == k
}

/// A position of an entry with the key `k`.
pub open spec fn key_index(e: Seq<(Seq<char>, Seq<char>)>, k: Seq<char>) -> int {
    choose|i: int| 0 <= i < e.len() && #[trigger] e[i].0 == k
}

/// The entries as a map from package name to version.
pub open spec fn entry_map(e: Seq<(Seq<char>, Seq<char>)>) -> Map<Seq<char>, Seq<char>> {
    Map::new(|k: Seq<char>| has_key(e, k), |k: Seq<char>| e[key_index(e, k)].1)
}

/// In sorted entries, each entry is what the map holds for its key.
pub proof fn lemma_entry_map_at(e: Seq<(Seq<char>, Seq<char>)>, i: int)
    requires
        keys_sorted(e),
        0 <= i < e.len(),
    ensures
        entry_map(e).contains_key(e[i].0),
        entry_map(e)[e[i].0] == e[i].1,
{
    let k = e[i].0;
    assert(has_key(e, k));
    let j = key_index(e, k);
    assert(entry_map(e)[k] == e[j].1);
    if j < i {
        assert(text_lt(e[j].0, e[i].0));
        lemma_text_lt_irreflexive(k);
    } else if j > i {
        assert(text_lt(e[i].0, e[j].0));
        lemma_text_lt_irreflexive(k);
    }
}

/// Extending sorted entries by one more entry adds that key to the map.
proof fn lemma_entry_map_take(e: Seq<(Seq<char>, Seq<char>)>, i: int)
    requires
        keys_sorted(e),
        0 <= i < e.len(),
    ensures
        entry_map(e.take(i + 1)) == entry_map(e.take(i)).insert(e[i].0, e[i].1),
{
    let a = e.take(i);
    let b = e.take(i + 1);
    assert(keys_sorted(a));
    assert(keys_sorted(b));
    lemma_entry_map_at(b, i);
    assert(b[i] == e[i]);
    assert forall|k: Seq<char>| #[trigger] entry_map(b).contains_key(k) <==> entry_map(a).insert(
        e[i].0,
        e[i].1,
    ).contains_key(k) by {
        if has_key(b, k) && k != e[i].0 {
            let j = choose|j: int| 0 <= j < b.len() && #[trigger] b[j].0 == k;
            assert(a[j].0 == k);
        }
        if has_key(a, k) {
            let j = choose|j: int| 0 <= j < a.len() && #[trigger] a[j].0 == k;
            assert(b[j].0 == k);
        }
    }
    assert forall|k: Seq<char>| entry_map(b).contains_key(k) implies #[trigger] entry_map(b)[k]
        == entry_map(a).insert(e[i].0, e[i].1)[k] by {
        if k != e[i].0 {
            let j = choose|j: int| 0 <= j < b.len() && #[trigger] b[j].0 == k;
            lemma_entry_map_at(b, j);
            assert(a[j] == b[j]);
            lemma_entry_map_at(a, j);
        }
    }
    assert(entry_map(b) =~= entry_map(a).insert(e[i].0, e[i].1));
}

/// A copy of a pinned package.
pub fn copy_package(p: &Package) -> (r: Package)
    ensures
        r.version@ == p.version@,
{
    Package { version: p.version.clone() }
}

/// The number of entries of sorted entries is the number of keys of their map.
pub proof fn lemma_entry_count(e: Seq<(Seq<char>, Seq<char>)>)
    requires
        keys_sorted(e),
    ensures
        e.len() == entry_map(e).dom().len(),
        entry_map(e).dom() == e.map_values(|x: (Seq<char>, Seq<char>)| x.0).to_set(),
{
    let keys = e.map_values(|x: (Seq<char>, Seq<char>)| x.0);
    assert(keys.no_duplicates()) by {
        assert forall|i: int, j: int| 0 <= i < keys.len() && 0 <= j < keys.len() && i != j implies keys[i] != keys[j] by {
            if i < j {
                assert(text_lt(e[i].0, e[j].0));
            } else {
                assert(text_lt(e[j].0, e[i].0));
            }
            lemma_text_lt_irreflexive(e[i].0);
        }
    }
    keys.unique_seq_to_set();
    assert(entry_map(e).dom() =~= keys.to_set()) by {
        assert forall|k: Seq<char>| keys.to_set().contains(k) implies entry_map(e).dom().contains(k) by {
            let i = choose|i: int| 0 <= i < keys.len() && keys[i] == k;
            assert(e[i].0 == k);
        }
        assert forall|k: Seq<char>| entry_map(e).dom().contains(k) implies keys.to_set().contains(k) by {
            let i = choose|i: int| 0 <= i < e.len() && #[trigger] e[i].0 == k;
            assert(keys[i] == k);
        }
    }
}

/// Pinned versions by package name, in ascending order of name.
pub struct PackageMap {
    entries: Vec<(String, Package)>,
}

impl View for PackageMap {
    type V = Seq<(Seq<char>, Seq<char>)>;

    closed spec fn view(&self) -> Seq<(Seq<char>, Seq<char>)> {
        self.entries@.map_values(|e: (String, Package)| (e.0@, e.1.version@))
    }
}

impl PackageMap {
    /// The names are in strictly ascending order.
    pub open spec fn wf(&self) -> bool {
        keys_sorted(self@)
    }

    /// Name to version.
    pub open spec fn map(&self) -> Map<Seq<char>, Seq<char>> {
        entry_map(self@)
    }

    /// No packages.
    pub fn new() -> (m: PackageMap)
        ensures
            m.wf(),
            m@ == Seq::<(Seq<char>, Seq<char>)>::empty(),
    {
        let m = PackageMap { entries: Vec::new() };
        assert(m@ =~= Seq::<(Seq<char>, Seq<char>)>::empty());
        m
    }

    /// Number of packages.
    pub fn len(&self) -> (n: usize)
        ensures
            n == self@.len(),
    {
        self.entries.len()
    }

    /// The entries, in ascending order of name.
    pub fn entries(&self) -> (r: &Vec<(String, Package)>)
        ensures
            r@.map_values(|e: (String, Package)| (e.0@, e.1.version@)) == self@,
    {
        &self.entries
    }

    /// The position of `name`, or of the first name after it.
    fn position(&self, name: &[char]) -> (p: usize)
        requires
            self.wf(),
        ensures
            p <= self@.len(),
            forall|k: int| 0 <= k < p ==> text_lt(#[trigger] self@[k].0, name@),
            p < self@.len() ==> !text_lt(self@[p as int].0, name@),
    {
        let mut p: usize = 0;
        while p < self.entries.len()
            invariant
                p <= self@.len(),
                self@.len() == self.entries@.len(),
                forall|k: int| 0 <= k < p ==> text_lt(#[trigger] self@[k].0, name@),
            decreases self.entries@.len() - p,
        {
            let key = chars_of(self.entries[p].0.as_str());
            assert(key@ == self@[p as int].0);
            if !chars_lt(key.as_slice(), name) {
                return p;
            }
            p = p + 1;
        }
        p
    }

    /// The package pinned under `name`.
    pub fn get(&self, name: &str) -> (r: Option<&Package>)
        requires
            self.wf(),
        ensures
            match r {
                Some(p) => self.map().contains_key(name@) && self.map()[name@] == p.version@,
                None => !self.map().contains_key(name@),
            },
    {
        let n = chars_of(name);
        let p = self.position(n.as_slice());
        if p < self.entries.len() {
            let key = chars_of(self.entries[p].0.as_str());
            assert(key@ == self@[p as int].0);
            if chars_eq(key.as_slice(), n.as_slice()) {
                proof {
                    lemma_entry_map_at(self@, p as int);
                }
                return Some(&self.entries[p].1);
            }
        }
        proof {
            if has_key(self@, name@) {
                let j = choose|j: int| 0 <= j < self@.len() && #[trigger] self@[j].0 == name@;
                if j < p {
                    lemma_text_lt_irreflexive(name@);
                } else {
                    lemma_text_lt_total(self@[p as int].0, name@);
                    if j > p {
                        lemma_text_lt_transitive(name@, self@[p as int].0, self@[j].0);
                    }
                    lemma_text_lt_irreflexive(name@);
                }
            }
        }
        None
    }

    /// Whether a package is pinned under `name`.
    pub fn contains_key(&self, name: &str) -> (b: bool)
        requires
            self.wf(),
        ensures
            b == self.map().contains_key(name@),
    {
        self.get(name).is_some()
    }

    /// Pins `package` under `name`, replacing any earlier pin of that name.
    pub fn insert(&mut self, name: String, package: Package)
        requires
            old(self).wf(),
        ensures
            final(self).wf(),
            final(self).map() == old(self).map().insert(name@, package.version@),
    {
        let ghost old_view = self@;
        let ghost entry = (name@, package.version@);
        let n = chars_of(name.as_str());
        let p = self.position(n.as_slice());
        let mut replace = false;
        if p < self.entries.len() {
            let key = chars_of(self.entries[p].0.as_str());
            assert(key@ == self@[p as int].0);
            replace = chars_eq(key.as_slice(), n.as_slice());
        }
        let ghost np = name@;
        let ghost nv = package.version@;
        if replace {
            self.entries.set(p, (name, package));
            proof {
                let nw = self@;
                assert(nw =~= old_view.update(p as int, entry));
                assert(keys_sorted(nw)) by {
                    assert forall|i: int, j: int| 0 <= i < j < nw.len() implies text_lt(
                        #[trigger] nw[i].0,
                        #[trigger] nw[j].0,
                    ) by {
                        assert(nw[i].0 == old_view[i].0);
                        assert(nw[j].0 == old_view[j].0);
                    }
                }
                assert(nw[p as int] == (np, nv));
                assert forall|k: Seq<char>| k != np implies (has_key(nw, k) <==> has_key(old_view, k)) by {
                    if has_key(nw, k) {
                        let i = choose|i: int| 0 <= i < nw.len() && #[trigger] nw[i].0 == k;
                        assert(old_view[i].0 == k);
                    }
                    if has_key(old_view, k) {
                        let i = choose|i: int| 0 <= i < old_view.len() && #[trigger] old_view[i].0 == k;
                        assert(nw[i].0 == k);
                    }
                }
                assert forall|i: int| 0 <= i < nw.len() && nw[i].0 != np implies #[trigger] old_view.contains(nw[i]) by {
                    assert(old_view[i] == nw[i]);
                }
                self.lemma_map_after(old_view, nw, np, nv);
            }
        } else {
            self.entries.insert(p, (name, package));
            proof {
                let nw = self@;
                assert(nw =~= old_view.insert(p as int, entry));
                if p < old_view.len() {
                    lemma_text_lt_total(old_view[p as int].0, np);
                    assert(text_lt(np, old_view[p as int].0));
                }
                assert forall|k: int| p <= k < old_view.len() implies text_lt(np, #[trigger] old_view[k].0) by {
                    if k > p {
                        assert(text_lt(old_view[p as int].0, old_view[k].0));
                        lemma_text_lt_transitive(np, old_view[p as int].0, old_view[k].0);
                    }
                }
                assert(keys_sorted(nw)) by {
                    assert forall|i: int, j: int| 0 <= i < j < nw.len() implies text_lt(
                        #[trigger] nw[i].0,
                        #[trigger] nw[j].0,
                    ) by {
                        if i < p && j > p {
                            assert(text_lt(old_view[i].0, np));
                            assert(text_lt(np, old_view[j - 1].0));
                            lemma_text_lt_transitive(old_view[i].0, np, old_view[j - 1].0);
                        } else if i < p && j == p {
                            assert(text_lt(old_view[i].0, np));
                        } else if i == p {
                            assert(text_lt(np, old_view[j - 1].0));
                        } else if i > p {
                            assert(text_lt(old_view[i - 1].0, old_view[j - 1].0));
                        } else {
                            assert(text_lt(old_view[i].0, old_view[j].0));
                        }
                    }
                }
                assert(nw[p as int] == (np, nv));
                assert forall|k: Seq<char>| k != np implies (has_key(nw, k) <==> has_key(old_view, k)) by {
                    if has_key(nw, k) {
                        let i = choose|i: int| 0 <= i < nw.len() && #[trigger] nw[i].0 == k;
                        if i < p {
                            assert(old_view[i].0 == k);
                        } else {
                            assert(old_view[i - 1].0 == k);
                        }
                    }
                    if has_key(old_view, k) {
                        let i = choose|i: int| 0 <= i < old_view.len() && #[trigger] old_view[i].0 == k;
                        if i < p {
                            assert(nw[i].0 == k);
                        } else {
                            assert(nw[i + 1].0 == k);
                        }
                    }
                }
                assert forall|i: int| 0 <= i < nw.len() && nw[i].0 != np implies #[trigger] old_view.contains(nw[i]) by {
                    if i < p {
                        assert(old_view[i] == nw[i]);
                    } else {
                        assert(old_view[i - 1] == nw[i]);
                    }
                }
                self.lemma_map_after(old_view, nw, np, nv);
            }
        }
    }

    /// Pins every package of `other`, replacing earlier pins of the same
    /// names (`BTreeMap::extend`).
    pub fn extend(&mut self, other: &PackageMap)
        requires
            old(self).wf(),
            other.wf(),
        ensures
            final(self).wf(),
            final(self).map() == old(self).map().union_prefer_right(other.map()),
    {
        let ghost start = self.map();
        let ghost ov = other@;
        let mut i: usize = 0;
        assert(entry_map(ov.take(0)) =~= Map::<Seq<char>, Seq<char>>::empty());
        assert(start.union_prefer_right(Map::<Seq<char>, Seq<char>>::empty()) =~= start);
        while i < other.entries.len()
            invariant
                i <= ov.len(),
                ov == other@,
                ov.len() == other.entries@.len(),
                keys_sorted(ov),
                self.wf(),
                self.map() == start.union_prefer_right(entry_map(ov.take(i as int))),
            decreases ov.len() - i,
        {
            let name = other.entries[i].0.clone();
            let package = copy_package(&other.entries[i].1);
            assert(ov[i as int] == (name@, package.version@));
            self.insert(name, package);
            proof {
                lemma_entry_map_take(ov, i as int);
                assert(self.map() =~= start.union_prefer_right(entry_map(ov.take(i + 1))));
            }
            i = i + 1;
        }
        assert(ov.take(i as int) =~= ov);
    }

    proof fn lemma_map_after(
        &self,
        old_view: Seq<(Seq<char>, Seq<char>)>,
        nw: Seq<(Seq<char>, Seq<char>)>,
        np: Seq<char>,
        nv: Seq<char>,
    )
        requires
            keys_sorted(old_view),
            keys_sorted(nw),
            nw.contains((np, nv)),
            forall|k: Seq<char>| k != np ==> (has_key(nw, k) <==> has_key(old_view, k)),
            forall|i: int|
                0 <= i < nw.len() && nw[i].0 != np ==> #[trigger] old_view.contains(nw[i]),
        ensures
            entry_map(nw) == entry_map(old_view).insert(np, nv),
    {
        let target = entry_map(old_view).insert(np, nv);
        let i0 = choose|i: int| 0 <= i < nw.len() && nw[i] == (np, nv);
        lemma_entry_map_at(nw, i0);
        assert forall|k: Seq<char>| #[trigger] entry_map(nw).contains_key(k) <==> target.contains_key(k) by {
            if k == np {
                assert(has_key(nw, k));
            }
        }
        assert forall|k: Seq<char>| entry_map(nw).contains_key(k) implies #[trigger] entry_map(nw)[k] == target[k] by {
            if k != np {
                let i = choose|i: int| 0 <= i < nw.len() && #[trigger] nw[i].0 == k;
                lemma_entry_map_at(nw, i);
                assert(old_view.contains(nw[i]));
                let j = choose|j: int| 0 <= j < old_view.len() && old_view[j] == nw[i];
                lemma_entry_map_at(old_view, j);
            }
        }
        assert(entry_map(nw) =~= target);
    }
}

/// `capsule.lock` of a project.
pub struct CapsuleLock {
    pub version: u8,
    pub project_hash: String,
    pub language: Language,
    pub runtime: Runtime,
    pub packages: PackageMap,
}

impl CapsuleLock {
    /// The pinned packages are in order.
    pub open spec fn wf(&self) -> bool {
        self.packages.wf()
    }
}

/// A version 1 lock of a language and runtime that pins nothing yet, and
/// whose project hash is still to be computed.
pub fn fresh_lock(language: Language, runtime: Runtime) -> (lock: CapsuleLock)
    ensures
        lock.wf(),
        lock.version == 1,
        lock.project_hash@ == Seq::<char>::empty(),
        lock.language == language,
        lock.runtime == runtime,
        lock.packages@.len() == 0,
        lock.packages.map() == Map::<Seq<char>, Seq<char>>::empty(),
{
    let packages = PackageMap::new();
    assert(packages.map() =~= Map::<Seq<char>, Seq<char>>::empty());
    CapsuleLock { version: 1, project_hash: String::new(), language, runtime, packages }
}

/// The lock with the versions of `found` pinned as well, replacing earlier
/// pins of the same packages.
pub fn extend_lock(lock: CapsuleLock, found: &PackageMap) -> (r: CapsuleLock)
    requires
        lock.wf(),
        found.wf(),
    ensures
        r.wf(),
        r.version == lock.version,
        r.project_hash == lock.project_hash,
        r.language == lock.language,
        r.runtime == lock.runtime,
        r.packages.map() == lock.packages.map().union_prefer_right(found.map()),
{
    let mut lock = lock;
    lock.packages.extend(found);
    lock
}

/// The lockfile of the project rooted at `root`.
pub fn lock_path(root: &FsPath) -> (p: FsPath)
    ensures
        p@ == root@.push("capsule.lock"@),
{
    root.join("capsule.lock")
}

} // verus!
