//! The npm package that a module specifier names.
use vstd::prelude::*;

use crate::util::text::{
    before_char, chars_before, chars_of, chars_split, index_of_char, is_char, lemma_before_char,
    lemma_index_where, lemma_split_char_first, lemma_split_char_nonempty, lemma_split_char_pieces,
    lemma_split_char_whole, push_chars, split_char, string_of,
};

verus! {

/// The package of a specifier: `@scope/pkg` for a scoped one, the part
/// before the first `/` otherwise.
pub open spec fn package_root_of(specifier: Seq<char>) -> Seq<char> {
    if specifier.len() > 0 && specifier[0] == '@' {
        let parts = split_char(specifier, '/');
        parts[0] + seq!['/'] + if parts.len() > 1 {
            parts[1]
        } else {
            Seq::<char>::empty()
        }
    } else {
        before_char(specifier, '/')
    }
}

/// The package that `specifier` imports from (`lodash/debounce` is
/// `lodash`, `@scope/pkg/sub` is `@scope/pkg`).
pub fn package_root(specifier: &str) -> (r: String)
    ensures
        r@ == package_root_of(specifier@),
{
    let s = chars_of(specifier);
    if s.len() > 0 && s[0] == '@' {
        let parts = chars_split(s.as_slice(), '/');
        proof {
            crate::util::text::lemma_split_char_nonempty(s@, '/');
        }
        let mut out: Vec<char> = Vec::new();
        push_chars(&mut out, parts[0].as_slice());
        out.push('/');
        if parts.len() > 1 {
            push_chars(&mut out, parts[1].as_slice());
        }
        assert(out@ =~= package_root_of(s@));
        string_of(out.as_slice())
    } else {
        let r = chars_before(s.as_slice(), '/');
        string_of(r.as_slice())
    }
}


/// The package of a package is itself: `package_root` is idempotent.
pub proof fn package_root_is_idempotent(specifier: Seq<char>)
    ensures
        package_root_of(package_root_of(specifier)) == package_root_of(specifier),
{
    let r = package_root_of(specifier);
    if specifier.len() > 0 && specifier[0] == '@' {
        let parts = split_char(specifier, '/');
        lemma_split_char_nonempty(specifier, '/');
        lemma_split_char_pieces(specifier, '/');
        let p0 = parts[0];
        let p1 = if parts.len() > 1 {
            parts[1]
        } else {
            Seq::<char>::empty()
        };
        assert(!p0.contains('/'));
        assert(!p1.contains('/'));
        lemma_split_char_first(p0, p1, '/');
        lemma_split_char_whole(p1, '/');
        assert(r == p0 + seq!['/'] + p1);
        assert(split_char(r, '/') =~= seq![p0, p1]);
        lemma_index_where(specifier, is_char('/'));
        assert(p0 == specifier.take(index_of_char(specifier, '/')));
        assert(index_of_char(specifier, '/') > 0);
        assert(r[0] == specifier[0]);
    } else {
        lemma_before_char(specifier, '/');
        lemma_before_char(r, '/');
        if r.len() > 0 {
            assert(r[0] == specifier[0]);
        }
    }
}

} // verus!
