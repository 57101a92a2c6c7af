//! A set of names kept in ascending order without repeats, the order in
//! which a `BTreeSet<String>` yields them.
use vstd::prelude::*;

use crate::util::order::{
    chars_lt, lemma_text_lt_irreflexive, lemma_text_lt_total, lemma_text_lt_transitive, text_lt,
};
use crate::util::text::{chars_eq, string_of};

verus! {

/// Every element comes strictly before the ones after it.
pub open spec fn strictly_sorted(s: Seq<Seq<char>>) -> bool {
    forall|i: int, j: int| 0 <= i < j < s.len() ==> text_lt(#[trigger] s[i], #[trigger] s[j])
}

/// Two strictly ascending sequences with the same elements are the same
/// sequence: a scan's result is fixed by the set of names it found.
pub proof fn sorted_names_are_determined_by_their_set(a: Seq<Seq<char>>, b: Seq<Seq<char>>)
    requires
        strictly_sorted(a),
        strictly_sorted(b),
        a.to_set() == b.to_set(),
    ensures
        a == b,
    decreases a.len(),
{
    if a.len() == 0 {
        if b.len() > 0 {
            assert(b.to_set().contains(b[0]));
        }
        assert(a =~= b);
    } else {
        assert(a.to_set().contains(a[0]));
        assert(b.to_set().contains(a[0]));
        let j = choose|j: int| 0 <= j < b.len() && b[j] == a[0];
        assert(a.to_set().contains(b[0]));
        let i = choose|i: int| 0 <= i < a.len() && a[i] == b[0];
        if j > 0 {
            assert(text_lt(b[0], b[j]));
            if i > 0 {
                assert(text_lt(a[0], a[i]));
                lemma_text_lt_transitive(a[0], a[i], a[0]);
                lemma_text_lt_irreflexive(a[0]);
            } else {
                lemma_text_lt_irreflexive(a[0]);
            }
        }
        assert(a[0] == b[0]);
        let a1 = a.drop_first();
        let b1 = b.drop_first();
        assert(strictly_sorted(a1)) by {
            assert forall|x: int, y: int| 0 <= x < y < a1.len() implies text_lt(#[trigger] a1[x], #[trigger] a1[y]) by {
                assert(text_lt(a[x + 1], a[y + 1]));
            }
        }
        assert(strictly_sorted(b1)) by {
            assert forall|x: int, y: int| 0 <= x < y < b1.len() implies text_lt(#[trigger] b1[x], #[trigger] b1[y]) by {
                assert(text_lt(b[x + 1], b[y + 1]));
            }
        }
        assert(a1.to_set() =~= b1.to_set()) by {
            assert forall|x: Seq<char>| a1.to_set().contains(x) implies b1.to_set().contains(x) by {
                let k = choose|k: int| 0 <= k < a1.len() && a1[k] == x;
                assert(text_lt(a[0], a[k + 1]));
                assert(b.to_set().contains(x));
                let m = choose|m: int| 0 <= m < b.len() && b[m] == x;
                if m == 0 {
                    lemma_text_lt_irreflexive(x);
                }
                assert(b1[m - 1] == x);
            }
            assert forall|x: Seq<char>| b1.to_set().contains(x) implies a1.to_set().contains(x) by {
                let k = choose|k: int| 0 <= k < b1.len() && b1[k] == x;
                assert(text_lt(b[0], b[k + 1]));
                assert(a.to_set().contains(x));
                let m = choose|m: int| 0 <= m < a.len() && a[m] == x;
                if m == 0 {
                    lemma_text_lt_irreflexive(x);
                }
                assert(a1[m - 1] == x);
            }
        }
        sorted_names_are_determined_by_their_set(a1, b1);
        assert(a =~= seq![a[0]] + a1);
        assert(b =~= seq![b[0]] + b1);
    }
}

/// Names in ascending order without repeats.
pub struct NameSet {
    items: Vec<Vec<char>>,
}

impl View for NameSet {
    type V = Seq<Seq<char>>;

    closed spec fn view(&self) -> Seq<Seq<char>> {
        self.items@.map_values(|v: Vec<char>| v@)
    }
}

impl NameSet {
    /// The names are in strictly ascending order.
    pub open spec fn wf(&self) -> bool {
        strictly_sorted(self@)
    }

    /// The empty set.
    pub fn new() -> (s: NameSet)
        ensures
            s.wf(),
            s@ == Seq::<Seq<char>>::empty(),
    {
        let s = NameSet { items: Vec::new() };
        assert(s@ =~= Seq::<Seq<char>>::empty());
        s
    }

    /// Number of names.
    pub fn len(&self) -> (n: usize)
        ensures
            n == self@.len(),
    {
        self.items.len()
    }

    /// Whether `name` is in the set.
    pub fn contains(&self, name: &[char]) -> (b: bool)
        ensures
            b == self@.contains(name@),
    {
        let mut i: usize = 0;
        while i < self.items.len()
            invariant
                i <= self@.len(),
                self@.len() == self.items@.len(),
                forall|k: int| 0 <= k < i ==> self@[k] != name@,
            decreases self.items@.len() - i,
        {
            if chars_eq(self.items[i].as_slice(), name) {
                assert(self@[i as int] == name@);
                return true;
            }
            i = i + 1;
        }
        false
    }

    /// Adds `name`, keeping the order; a name already present is kept once.
    pub fn insert(&mut self, name: Vec<char>)
        requires
            old(self).wf(),
        ensures
            final(self).wf(),
            final(self)@.to_set() == old(self)@.to_set().insert(name@),
            old(self)@.contains(name@) ==> final(self)@ == old(self)@,
    {
        let ghost old_view = self@;
        let mut p: usize = 0;
        while p < self.items.len() && chars_lt(self.items[p].as_slice(), name.as_slice())
            invariant
                p <= self.items@.len(),
                self@ == old_view,
                self@.len() == self.items@.len(),
                forall|k: int| 0 <= k < p ==> text_lt(#[trigger] old_view[k], name@),
            decreases self.items@.len() - p,
        {
            p = p + 1;
        }
        if p < self.items.len() && chars_eq(self.items[p].as_slice(), name.as_slice()) {
            assert(old_view[p as int] == self.items@[p as int]@);
            assert(old_view[p as int] == name@);
            assert(old_view.contains(name@));
            assert(old_view.to_set().insert(name@) =~= old_view.to_set());
            return;
        }
        proof {
            if p < old_view.len() {
                lemma_text_lt_total(old_view[p as int], name@);
                assert(text_lt(name@, old_view[p as int]));
                assert forall|k: int| p <= k < old_view.len() implies text_lt(
                    name@,
                    #[trigger] old_view[k],
                ) by {
                    if k > p {
                        lemma_text_lt_transitive(name@, old_view[p as int], old_view[k]);
                    }
                }
            }
            assert forall|k: int| 0 <= k < old_view.len() implies old_view[k] != name@ by {
                if k < p {
                    lemma_text_lt_irreflexive(name@);
                } else {
                    lemma_text_lt_irreflexive(name@);
                }
            }
        }
        let ghost nv = name@;
        self.items.insert(p, name);
        proof {
            let new_view = self@;
            assert(new_view =~= old_view.insert(p as int, nv));
            assert forall|i: int, j: int| 0 <= i < j < new_view.len() implies text_lt(
                #[trigger] new_view[i],
                #[trigger] new_view[j],
            ) by {
                if j < p {
                } else if j == p {
                } else if i < p {
                    if j > p {
                        lemma_text_lt_transitive(old_view[i], nv, old_view[j - 1]);
                    }
                } else if i == p {
                } else {
                }
            }
            assert(new_view.to_set() =~= old_view.to_set().insert(nv)) by {
                assert forall|x: Seq<char>| new_view.to_set().contains(x) implies old_view.to_set().insert(nv).contains(x) by {
                    let k = choose|k: int| 0 <= k < new_view.len() && new_view[k] == x;
                    if k < p {
                        assert(old_view[k] == x);
                    } else if k > p {
                        assert(old_view[k - 1] == x);
                    }
                }
                assert forall|x: Seq<char>| old_view.to_set().insert(nv).contains(x) implies new_view.to_set().contains(x) by {
                    if x == nv {
                        assert(new_view[p as int] == x);
                    } else {
                        let k = choose|k: int| 0 <= k < old_view.len() && old_view[k] == x;
                        if k < p {
                            assert(new_view[k] == x);
                        } else {
                            assert(new_view[k + 1] == x);
                        }
                    }
                }
            }
        }
    }

    /// The names, in ascending order, as strings.
    pub fn to_strings(&self) -> (v: Vec<String>)
        ensures
            v@.len() == self@.len(),
            forall|k: int| 0 <= k < v@.len() ==> #[trigger] v@[k]@ == self@[k],
    {
        let mut v: Vec<String> = Vec::new();
        let mut i: usize = 0;
        while i < self.items.len()
            invariant
                i <= self.items@.len(),
                self@.len() == self.items@.len(),
                v@.len() == i,
                forall|k: int| 0 <= k < i ==> #[trigger] v@[k]@ == self@[k],
            decreases self.items@.len() - i,
        {
            v.push(string_of(self.items[i].as_slice()));
            i = i + 1;
        }
        v
    }
}

} // verus!
