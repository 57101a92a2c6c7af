//! Character-level text helpers with their specifications.
//!
//! Texts are handled as sequences of `char`; every helper states its result
//! over `Seq<char>` through a spec function of this module.
use vstd::prelude::*;

verus! {

/// Unicode `White_Space`, the property behind `char::is_whitespace`.
pub open spec fn is_ws(c: char) -> bool {
    ||| c == ' '
    ||| ('\u{9}' <= c && c <= '\u{d}')
    ||| c == '\u{85}'
    ||| c == '\u{a0}'
    ||| c == '\u{1680}'
    ||| ('\u{2000}' <= c && c <= '\u{200a}')
    ||| c == '\u{2028}'
    ||| c == '\u{2029}'
    ||| c == '\u{202f}'
    ||| c == '\u{205f}'
    ||| c == '\u{3000}'
}

/// Whether `c` is Unicode whitespace.
pub fn is_whitespace(c: char) -> (b: bool)
    ensures
        b == is_ws(c),
{
    c == ' ' || ('\u{9}' <= c && c <= '\u{d}') || c == '\u{85}' || c == '\u{a0}' || c == '\u{1680}'
        || ('\u{2000}' <= c && c <= '\u{200a}') || c == '\u{2028}' || c == '\u{2029}' || c
        == '\u{202f}' || c == '\u{205f}' || c == '\u{3000}'
}

/// The characters of `s`, in order.
pub fn chars_of(s: &str) -> (v: Vec<char>)
    ensures
        v@ == s@,
{
    let mut v: Vec<char> = Vec::new();
    for c in it: s.chars()
        invariant
            v@ == it.seq().take(it.index() as int),
            it.seq() == s@,
    {
        v.push(c);
    }
    v
}

/// Collects characters into a `String` (`String: FromIterator<&char>`).
#[verifier::external_body]
pub fn string_of(v: &[char]) -> (s: String)
    ensures
        s@ == v@,
{
    v.iter().collect()
}

/// Whether two character sequences are equal.
pub fn chars_eq(a: &[char], b: &[char]) -> (r: bool)
    ensures
        r == (a@ == b@),
{
    if a.len() != b.len() {
        return false;
    }
    let mut i: usize = 0;
    while i < a.len()
        invariant
            a@.len() == b@.len(),
            i <= a@.len(),
            forall|j: int| 0 <= j < i ==> a@[j] == b@[j],
        decreases a@.len() - i,
    {
        if a[i] != b[i] {
            return false;
        }
        i = i + 1;
    }
    assert(a@ =~= b@);
    true
}

/// Whether the text `s` equals the text `t`.
pub fn str_eq(s: &str, t: &str) -> (r: bool)
    ensures
        r == (s@ == t@),
{
    let a = chars_of(s);
    let b = chars_of(t);
    chars_eq(a.as_slice(), b.as_slice())
}

/// `p` is a prefix of `s`.
pub open spec fn starts_with(s: Seq<char>, p: Seq<char>) -> bool {
    p.len() <= s.len() && s.take(p.len() as int) == p
}

/// Whether `p` is a prefix of `s`.
pub fn chars_starts_with(s: &[char], p: &[char]) -> (r: bool)
    ensures
        r == starts_with(s@, p@),
{
    if p.len() > s.len() {
        return false;
    }
    let mut i: usize = 0;
    while i < p.len()
        invariant
            p@.len() <= s@.len(),
            i <= p@.len(),
            forall|j: int| 0 <= j < i ==> s@[j] == p@[j],
        decreases p@.len() - i,
    {
        if s[i] != p[i] {
            assert(s@.take(p@.len() as int)[i as int] != p@[i as int]);
            return false;
        }
        i = i + 1;
    }
    assert(s@.take(p@.len() as int) =~= p@);
    true
}

/// `s` without its leading characters that satisfy `pred`.
pub open spec fn trim_start_by(s: Seq<char>, pred: spec_fn(char) -> bool) -> Seq<char>
    decreases s.len(),
{
    if s.len() > 0 && pred(s[0]) {
        trim_start_by(s.drop_first(), pred)
    } else {
        s
    }
}

/// `s` without its trailing characters that satisfy `pred`.
pub open spec fn trim_end_by(s: Seq<char>, pred: spec_fn(char) -> bool) -> Seq<char>
    decreases s.len(),
{
    if s.len() > 0 && pred(s.last()) {
        trim_end_by(s.drop_last(), pred)
    } else {
        s
    }
}

pub open spec fn ws_pred() -> spec_fn(char) -> bool {
    |c: char| is_ws(c)
}

/// `str::trim_start`: leading whitespace removed.
pub open spec fn trim_start(s: Seq<char>) -> Seq<char> {
    trim_start_by(s, ws_pred())
}

/// `str::trim_end`: trailing whitespace removed.
pub open spec fn trim_end(s: Seq<char>) -> Seq<char> {
    trim_end_by(s, ws_pred())
}

/// `str::trim`: leading and trailing whitespace removed.
pub open spec fn trim(s: Seq<char>) -> Seq<char> {
    trim_end(trim_start(s))
}

/// `str::trim_start_matches(c)` for a single character `c`.
pub open spec fn trim_start_char(s: Seq<char>, c: char) -> Seq<char> {
    trim_start_by(s, is_char(c))
}

proof fn lemma_trim_start_skip(s: Seq<char>, pred: spec_fn(char) -> bool, i: int)
    requires
        0 <= i < s.len(),
        pred(s[i]),
        trim_start_by(s, pred) == trim_start_by(s.skip(i), pred),
    ensures
        trim_start_by(s, pred) == trim_start_by(s.skip(i + 1), pred),
{
    assert(s.skip(i).drop_first() =~= s.skip(i + 1));
}

proof fn lemma_trim_end_take(s: Seq<char>, pred: spec_fn(char) -> bool, i: int)
    requires
        0 < i <= s.len(),
        pred(s[i - 1]),
        trim_end_by(s, pred) == trim_end_by(s.take(i), pred),
    ensures
        trim_end_by(s, pred) == trim_end_by(s.take(i - 1), pred),
{
    assert(s.take(i).drop_last() =~= s.take(i - 1));
}

/// Index of the first character of `s` from which `trim_start` keeps.
fn trim_start_index(s: &[char]) -> (i: usize)
    ensures
        i <= s@.len(),
        trim_start(s@) == s@.skip(i as int),
{
    let mut i: usize = 0;
    assert(s@.skip(0) =~= s@);
    while i < s.len() && is_whitespace(s[i])
        invariant
            i <= s@.len(),
            trim_start(s@) == trim_start(s@.skip(i as int)),
        decreases s@.len() - i,
    {
        proof {
            lemma_trim_start_skip(s@, ws_pred(), i as int);
        }
        i = i + 1;
    }
    i
}

/// The characters of `s` without leading and trailing whitespace.
pub fn chars_trim(s: &[char]) -> (r: Vec<char>)
    ensures
        r@ == trim(s@),
{
    let lo = trim_start_index(s);
    let ghost t = s@.skip(lo as int);
    let mut hi: usize = s.len();
    assert(t.take((hi - lo) as int) =~= t);
    while hi > lo && is_whitespace(s[hi - 1])
        invariant
            lo <= hi <= s@.len(),
            t == s@.skip(lo as int),
            trim_end(t) == trim_end(t.take((hi - lo) as int)),
        decreases hi,
    {
        proof {
            lemma_trim_end_take(t, ws_pred(), (hi - lo) as int);
        }
        hi = hi - 1;
    }
    let r = slice_vec(s, lo, hi);
    proof {
        assert(r@ =~= t.take((hi - lo) as int));
    }
    r
}

/// `s[lo..hi]` as a vector.
pub fn slice_vec(s: &[char], lo: usize, hi: usize) -> (r: Vec<char>)
    requires
        lo <= hi <= s@.len(),
    ensures
        r@ == s@.subrange(lo as int, hi as int),
{
    let mut r: Vec<char> = Vec::new();
    let mut i: usize = lo;
    while i < hi
        invariant
            lo <= i <= hi <= s@.len(),
            r@ == s@.subrange(lo as int, i as int),
        decreases hi - i,
    {
        r.push(s[i]);
        assert(r@ =~= s@.subrange(lo as int, i + 1));
        i = i + 1;
    }
    r
}


/// The predicate "is the character `c`".
pub open spec fn is_char(c: char) -> spec_fn(char) -> bool {
    |x: char| x == c
}

/// Index of the first character of `s` that satisfies `pred`, or `s.len()`
/// when there is none.
pub open spec fn index_where(s: Seq<char>, pred: spec_fn(char) -> bool) -> int
    decreases s.len(),
{
    if s.len() == 0 {
        0
    } else if pred(s[0]) {
        0
    } else {
        1 + index_where(s.drop_first(), pred)
    }
}

/// What `index_where` is: the first position that satisfies `pred`.
pub proof fn lemma_index_where(s: Seq<char>, pred: spec_fn(char) -> bool)
    ensures
        0 <= index_where(s, pred) <= s.len(),
        forall|j: int| 0 <= j < index_where(s, pred) ==> !pred(#[trigger] s[j]),
        index_where(s, pred) < s.len() ==> pred(s[index_where(s, pred)]),
    decreases s.len(),
{
    if s.len() > 0 && !pred(s[0]) {
        lemma_index_where(s.drop_first(), pred);
        assert forall|j: int| 0 <= j < index_where(s, pred) implies !pred(#[trigger] s[j]) by {
            if j > 0 {
                assert(s[j] == s.drop_first()[j - 1]);
            }
        }
    }
}

/// A position `k` with no match before it and a match at it (or the end)
/// is `index_where`.
pub proof fn lemma_index_where_is(s: Seq<char>, pred: spec_fn(char) -> bool, k: int)
    requires
        0 <= k <= s.len(),
        forall|j: int| 0 <= j < k ==> !pred(#[trigger] s[j]),
        k < s.len() ==> pred(s[k]),
    ensures
        index_where(s, pred) == k,
    decreases k,
{
    if k > 0 {
        assert(!pred(s[0]));
        assert forall|j: int| 0 <= j < k - 1 implies !pred(#[trigger] s.drop_first()[j]) by {
            assert(s.drop_first()[j] == s[j + 1]);
        }
        lemma_index_where_is(s.drop_first(), pred, k - 1);
    }
}

/// Index of the first `c` in `s`, or `s.len()`.
pub open spec fn index_of_char(s: Seq<char>, c: char) -> int {
    index_where(s, is_char(c))
}

/// The part of `s` before the first `c` (`s.split(c).next()`).
pub open spec fn before_char(s: Seq<char>, c: char) -> Seq<char> {
    s.take(index_of_char(s, c))
}

/// Position of the first `c` in `s[from..]`, or `s.len()`.
pub fn chars_find_char(s: &[char], from: usize, c: char) -> (i: usize)
    requires
        from <= s@.len(),
    ensures
        from <= i <= s@.len(),
        i - from == index_of_char(s@.skip(from as int), c),
        forall|j: int| from <= j < i ==> s@[j] != c,
        i < s@.len() ==> s@[i as int] == c,
{
    let mut i: usize = from;
    while i < s.len() && s[i] != c
        invariant
            from <= i <= s@.len(),
            forall|j: int| from <= j < i ==> s@[j] != c,
        decreases s@.len() - i,
    {
        i = i + 1;
    }
    proof {
        let t = s@.skip(from as int);
        assert forall|j: int| 0 <= j < i - from implies !is_char(c)(#[trigger] t[j]) by {
            assert(t[j] == s@[j + from]);
        }
        lemma_index_where_is(t, is_char(c), i - from);
    }
    i
}

/// The characters of `s` before the first `c`.
pub fn chars_before(s: &[char], c: char) -> (r: Vec<char>)
    ensures
        r@ == before_char(s@, c),
{
    let i = chars_find_char(s, 0, c);
    assert(s@.skip(0) =~= s@);
    slice_vec(s, 0, i)
}

/// `s.split(c)`: the pieces of `s` between occurrences of `c`.
pub open spec fn split_char(s: Seq<char>, c: char) -> Seq<Seq<char>>
    decreases s.len(),
{
    let i = index_of_char(s, c);
    if 0 <= i < s.len() {
        seq![s.take(i)] + split_char(s.skip(i + 1), c)
    } else {
        seq![s]
    }
}

/// Splitting yields at least one piece.
pub proof fn lemma_split_char_nonempty(s: Seq<char>, c: char)
    ensures
        split_char(s, c).len() >= 1,
    decreases s.len(),
{
    let i = index_of_char(s, c);
    if 0 <= i < s.len() {
        lemma_split_char_nonempty(s.skip(i + 1), c);
    }
}

/// No piece of a split holds the separator.
pub proof fn lemma_split_char_pieces(s: Seq<char>, c: char)
    ensures
        forall|k: int| 0 <= k < split_char(s, c).len() ==> !(#[trigger] split_char(s, c)[k]).contains(c),
    decreases s.len(),
{
    let i = index_of_char(s, c);
    lemma_index_where(s, is_char(c));
    if 0 <= i < s.len() {
        lemma_split_char_pieces(s.skip(i + 1), c);
        let head = s.take(i);
        assert forall|k: int| 0 <= k < split_char(s, c).len() implies !(#[trigger] split_char(s, c)[k]).contains(c) by {
            if k == 0 {
                if head.contains(c) {
                    let j = choose|j: int| 0 <= j < head.len() && head[j] == c;
                    assert(s[j] == c);
                    assert(!is_char(c)(s[j]));
                }
            } else {
                assert(split_char(s, c)[k] == split_char(s.skip(i + 1), c)[k - 1]);
            }
        }
    } else {
        if s.contains(c) {
            let j = choose|j: int| 0 <= j < s.len() && s[j] == c;
            assert(!is_char(c)(s[j]));
        }
    }
}

/// Text without the separator splits into itself.
pub proof fn lemma_split_char_whole(t: Seq<char>, c: char)
    requires
        !t.contains(c),
    ensures
        split_char(t, c) == seq![t],
{
    assert forall|j: int| 0 <= j < t.len() implies !is_char(c)(#[trigger] t[j]) by {
        if t[j] == c {
            assert(t.contains(c));
        }
    }
    lemma_index_where_is(t, is_char(c), t.len() as int);
}

/// Text before the first separator splits off as the first piece.
pub proof fn lemma_split_char_first(a: Seq<char>, b: Seq<char>, c: char)
    requires
        !a.contains(c),
    ensures
        split_char(a + seq![c] + b, c) == seq![a] + split_char(b, c),
{
    let s = a + seq![c] + b;
    assert forall|j: int| 0 <= j < a.len() implies !is_char(c)(#[trigger] s[j]) by {
        assert(s[j] == a[j]);
        if a[j] == c {
            assert(a.contains(c));
        }
    }
    lemma_index_where_is(s, is_char(c), a.len() as int);
    assert(s.take(a.len() as int) =~= a);
    assert(s.skip(a.len() as int + 1) =~= b);
}

/// The part before the first `c` holds no `c`, and is everything when
/// there is no `c`.
pub proof fn lemma_before_char(s: Seq<char>, c: char)
    ensures
        !before_char(s, c).contains(c),
        !s.contains(c) ==> before_char(s, c) == s,
        before_char(s, c).is_prefix_of(s),
{
    lemma_index_where(s, is_char(c));
    let b = before_char(s, c);
    if b.contains(c) {
        let j = choose|j: int| 0 <= j < b.len() && b[j] == c;
        assert(s[j] == c);
        assert(!is_char(c)(s[j]));
    }
    if !s.contains(c) {
        if index_of_char(s, c) < s.len() {
            assert(s[index_of_char(s, c)] == c);
        }
        assert(b =~= s);
    }
}

/// The pieces of `s` split at `c`, as vectors.
pub fn chars_split(s: &[char], c: char) -> (r: Vec<Vec<char>>)
    ensures
        r@.len() == split_char(s@, c).len(),
        forall|k: int| 0 <= k < r@.len() ==> #[trigger] r@[k]@ == split_char(s@, c)[k],
{
    let mut r: Vec<Vec<char>> = Vec::new();
    let mut start: usize = 0;
    let ghost mut done: Seq<Seq<char>> = seq![];
    assert(s@.skip(0) =~= s@);
    loop
        invariant
            start <= s@.len(),
            r@.len() == done.len(),
            forall|k: int| 0 <= k < r@.len() ==> #[trigger] r@[k]@ == done[k],
            split_char(s@, c) == done + split_char(s@.skip(start as int), c),
        decreases s@.len() - start,
    {
        let i = chars_find_char(s, start, c);
        let piece = slice_vec(s, start, i);
        let ghost t = s@.skip(start as int);
        assert(piece@ =~= t.take(i - start));
        if i == s.len() {
            assert(t.take(i - start) =~= t);
            proof {
                done = done.push(t);
            }
            r.push(piece);
            assert(split_char(s@, c) =~= done);
            return r;
        }
        assert(t.skip(i - start + 1) =~= s@.skip(i + 1));
        proof {
            done = done.push(t.take(i - start));
        }
        r.push(piece);
        start = i + 1;
    }
}

/// `str::lines`: lines ended by `\n` (with a `\r` before it removed), and a
/// last line without its `\n` when it is not empty.
pub open spec fn lines(s: Seq<char>) -> Seq<Seq<char>>
    decreases s.len(),
{
    let i = index_of_char(s, '\n');
    if s.len() == 0 {
        seq![]
    } else if 0 <= i < s.len() {
        seq![strip_cr(s.take(i))] + lines(s.skip(i + 1))
    } else {
        seq![s]
    }
}

/// `s` without one final `\r`.
pub open spec fn strip_cr(s: Seq<char>) -> Seq<char> {
    if s.len() > 0 && s.last() == '\r' {
        s.drop_last()
    } else {
        s
    }
}

/// The lines of `s`, as `str::lines` yields them.
pub fn chars_lines(s: &[char]) -> (r: Vec<Vec<char>>)
    ensures
        r@.len() == lines(s@).len(),
        forall|k: int| 0 <= k < r@.len() ==> #[trigger] r@[k]@ == lines(s@)[k],
{
    let mut r: Vec<Vec<char>> = Vec::new();
    let mut start: usize = 0;
    let ghost mut done: Seq<Seq<char>> = seq![];
    assert(s@.skip(0) =~= s@);
    while start < s.len()
        invariant
            start <= s@.len(),
            r@.len() == done.len(),
            forall|k: int| 0 <= k < r@.len() ==> #[trigger] r@[k]@ == done[k],
            lines(s@) == done + lines(s@.skip(start as int)),
        decreases s@.len() - start,
    {
        let i = chars_find_char(s, start, '\n');
        let ghost t = s@.skip(start as int);
        if i == s.len() {
            let piece = slice_vec(s, start, i);
            assert(piece@ =~= t);
            proof {
                done = done.push(t);
            }
            r.push(piece);
            assert(lines(s@) =~= done);
            return r;
        }
        let hi = if i > start && s[i - 1] == '\r' { i - 1 } else { i };
        let piece = slice_vec(s, start, hi);
        assert(piece@ =~= strip_cr(t.take(i - start)));
        assert(t.skip(i - start + 1) =~= s@.skip(i + 1));
        proof {
            done = done.push(strip_cr(t.take(i - start)));
        }
        r.push(piece);
        start = i + 1;
    }
    assert(s@.skip(start as int) =~= Seq::<char>::empty());
    assert(done + lines(s@.skip(start as int)) =~= done);
    r
}


/// Position of the first occurrence of `p` in `s` (`str::find` with a
/// non-empty pattern).
pub open spec fn find_sub(s: Seq<char>, p: Seq<char>) -> Option<int>
    decreases s.len(),
{
    if s.len() < p.len() {
        None
    } else if s.take(p.len() as int) == p {
        Some(0)
    } else if s.len() == 0 {
        None
    } else {
        match find_sub(s.drop_first(), p) {
            Some(i) => Some(i + 1),
            None => None,
        }
    }
}

/// `p` occurs in `s` at position `i`.
pub open spec fn occurs_at(s: Seq<char>, p: Seq<char>, i: int) -> bool {
    0 <= i && i + p.len() <= s.len() && s.subrange(i, i + p.len()) == p
}

proof fn lemma_find_sub_step(s: Seq<char>, p: Seq<char>, i: int)
    requires
        0 <= i,
        p.len() > 0,
        i + p.len() <= s.len(),
        !occurs_at(s, p, i),
    ensures
        find_sub(s.skip(i), p) == match find_sub(s.skip(i + 1), p) {
            Some(k) => Some(k + 1),
            None => None::<int>,
        },
{
    let t = s.skip(i);
    assert(t.take(p.len() as int) =~= s.subrange(i, i + p.len()));
    assert(t.drop_first() =~= s.skip(i + 1));
}

proof fn lemma_find_sub_none(s: Seq<char>, p: Seq<char>)
    requires
        s.len() < p.len(),
    ensures
        find_sub(s, p) is None,
{
}

/// An occurrence of `p` in `s` is found.
pub proof fn lemma_find_sub_found(s: Seq<char>, p: Seq<char>, i: int)
    requires
        occurs_at(s, p, i),
    ensures
        find_sub(s, p) is Some,
    decreases i,
{
    assert(s.take(p.len() as int) =~= s.subrange(0, p.len() as int));
    if s.take(p.len() as int) != p {
        assert(i != 0);
        assert(s.drop_first().subrange(i - 1, i - 1 + p.len()) =~= s.subrange(i, i + p.len()));
        lemma_find_sub_found(s.drop_first(), p, i - 1);
    }
}

/// What `find_sub` finds is an occurrence.
pub proof fn lemma_find_sub_occurs(s: Seq<char>, p: Seq<char>)
    requires
        find_sub(s, p) is Some,
    ensures
        occurs_at(s, p, find_sub(s, p)->0),
    decreases s.len(),
{
    assert(s.take(p.len() as int) =~= s.subrange(0, p.len() as int));
    if s.take(p.len() as int) != p {
        lemma_find_sub_occurs(s.drop_first(), p);
        let k = find_sub(s.drop_first(), p)->0;
        assert(s.drop_first().subrange(k, k + p.len()) =~= s.subrange(k + 1, k + 1 + p.len()));
    }
}

/// `find_sub` finds the first occurrence.
pub proof fn lemma_find_sub_first(s: Seq<char>, p: Seq<char>, i: int)
    requires
        occurs_at(s, p, i),
    ensures
        find_sub(s, p) matches Some(k) && k <= i,
    decreases i,
{
    lemma_find_sub_found(s, p, i);
    assert(s.take(p.len() as int) =~= s.subrange(0, p.len() as int));
    if s.take(p.len() as int) != p {
        assert(i != 0);
        assert(s.drop_first().subrange(i - 1, i - 1 + p.len()) =~= s.subrange(i, i + p.len()));
        lemma_find_sub_first(s.drop_first(), p, i - 1);
    }
}

/// Position of the first occurrence of the non-empty `p` in `s`.
pub fn chars_find(s: &[char], p: &[char]) -> (r: Option<usize>)
    requires
        p@.len() > 0,
    ensures
        match r {
            Some(i) => find_sub(s@, p@) == Some(i as int) && i + p@.len() <= s@.len(),
            None => find_sub(s@, p@) is None,
        },
{
    if p.len() > s.len() {
        return None;
    }
    let mut i: usize = 0;
    assert(s@.skip(0) =~= s@);
    while i <= s.len() - p.len()
        invariant
            p@.len() > 0,
            p@.len() <= s@.len(),
            i <= s@.len() - p@.len() + 1,
            find_sub(s@, p@) == match find_sub(s@.skip(i as int), p@) {
                Some(k) => Some(k + i),
                None => None::<int>,
            },
        decreases s@.len() - i,
    {
        let window = slice_vec(s, i, i + p.len());
        if chars_eq(window.as_slice(), p) {
            assert(s@.skip(i as int).take(p@.len() as int) =~= window@);
            return Some(i);
        }
        proof {
            lemma_find_sub_step(s@, p@, i as int);
        }
        i = i + 1;
    }
    proof {
        lemma_find_sub_none(s@.skip(i as int), p@);
    }
    None
}

/// The first whitespace-separated word of `s`, or empty
/// (`s.split_whitespace().next().unwrap_or_default()`).
pub open spec fn first_word(s: Seq<char>) -> Seq<char> {
    let t = trim_start(s);
    t.take(index_where(t, ws_pred()))
}

/// The first whitespace-separated word of `s`, or empty.
pub fn chars_first_word(s: &[char]) -> (r: Vec<char>)
    ensures
        r@ == first_word(s@),
{
    let lo = trim_start_index(s);
    let ghost t = s@.skip(lo as int);
    let mut hi: usize = lo;
    while hi < s.len() && !is_whitespace(s[hi])
        invariant
            lo <= hi <= s@.len(),
            t == s@.skip(lo as int),
            forall|j: int| lo <= j < hi ==> !is_ws(#[trigger] s@[j]),
        decreases s@.len() - hi,
    {
        hi = hi + 1;
    }
    proof {
        assert forall|j: int| 0 <= j < hi - lo implies !ws_pred()(#[trigger] t[j]) by {
            assert(t[j] == s@[j + lo]);
        }
        lemma_index_where_is(t, ws_pred(), hi - lo);
    }
    let r = slice_vec(s, lo, hi);
    assert(r@ =~= t.take(hi - lo));
    r
}

/// The characters of `s` without the leading run of `c`
/// (`str::trim_start_matches(c)`).
pub fn chars_trim_start_char(s: &[char], c: char) -> (r: Vec<char>)
    ensures
        r@ == trim_start_char(s@, c),
{
    let mut i: usize = 0;
    assert(s@.skip(0) =~= s@);
    while i < s.len() && s[i] == c
        invariant
            i <= s@.len(),
            trim_start_char(s@, c) == trim_start_by(s@.skip(i as int), is_char(c)),
        decreases s@.len() - i,
    {
        proof {
            lemma_trim_start_skip(s@, is_char(c), i as int);
        }
        i = i + 1;
    }
    let r = slice_vec(s, i, s.len());
    assert(r@ =~= s@.skip(i as int));
    r
}


/// Appends the characters of `t` to `v`.
pub fn push_chars(v: &mut Vec<char>, t: &[char])
    ensures
        final(v)@ == old(v)@ + t@,
{
    let ghost start = v@;
    let mut i: usize = 0;
    while i < t.len()
        invariant
            i <= t@.len(),
            v@ == start + t@.take(i as int),
        decreases t@.len() - i,
    {
        v.push(t[i]);
        assert(v@ =~= start + t@.take(i + 1));
        i = i + 1;
    }
    assert(t@.take(i as int) =~= t@);
}

/// Whether `c` occurs in `s`.
pub fn chars_contains(s: &[char], c: char) -> (b: bool)
    ensures
        b == s@.contains(c),
{
    let i = chars_find_char(s, 0, c);
    i < s.len()
}


/// The texts of `a` with `c` pushed are the texts of `a`, then the text of `c`.
pub proof fn lemma_push_texts(a: Seq<String>, c: String)
    ensures
        a.push(c).map_values(|s: String| s@) == a.map_values(|s: String| s@).push(c@),
{
    assert(a.push(c).map_values(|s: String| s@) =~= a.map_values(|s: String| s@).push(c@));
}


/// The text `a` followed by the text `b`.
pub fn concat(a: &str, b: &str) -> (r: String)
    ensures
        r@ == a@ + b@,
{
    let mut v = chars_of(a);
    let w = chars_of(b);
    push_chars(&mut v, w.as_slice());
    string_of(v.as_slice())
}


/// The texts of `items` with `sep` between each two (`[String]::join`).
pub open spec fn join_with(items: Seq<Seq<char>>, sep: Seq<char>) -> Seq<char>
    decreases items.len(),
{
    if items.len() == 0 {
        seq![]
    } else if items.len() == 1 {
        items[0]
    } else {
        join_with(items.drop_last(), sep) + sep + items.last()
    }
}

/// The texts of `items` joined by `sep`.
pub fn join(items: &[String], sep: &str) -> (r: String)
    ensures
        r@ == join_with(items@.map_values(|s: String| s@), sep@),
{
    let ghost texts = items@.map_values(|s: String| s@);
    let sepc = chars_of(sep);
    let mut out: Vec<char> = Vec::new();
    let mut i: usize = 0;
    while i < items.len()
        invariant
            i <= items@.len(),
            texts == items@.map_values(|s: String| s@),
            sepc@ == sep@,
            out@ == join_with(texts.take(i as int), sep@),
        decreases items@.len() - i,
    {
        assert(texts.take(i + 1).drop_last() =~= texts.take(i as int));
        if i > 0 {
            push_chars(&mut out, sepc.as_slice());
        }
        let item = chars_of(items[i].as_str());
        push_chars(&mut out, item.as_slice());
        if i == 0 {
            assert(out@ =~= texts.take(1)[0]);
        } else {
            assert(out@ =~= join_with(texts.take(i as int), sep@) + sep@ + texts.take(i + 1).last());
        }
        i = i + 1;
    }
    assert(texts.take(i as int) =~= texts);
    string_of(out.as_slice())
}


/// `s` with every non-overlapping occurrence of the non-empty `p` removed,
/// from left to right (`str::replace(p, "")`).
pub open spec fn remove_all(s: Seq<char>, p: Seq<char>) -> Seq<char>
    decreases s.len(),
{
    match find_sub(s, p) {
        Some(i) => if p.len() > 0 && 0 <= i && i + p.len() <= s.len() {
            s.take(i) + remove_all(s.skip(i + p.len()), p)
        } else {
            s
        },
        None => s,
    }
}

/// The text `s` without the occurrences of `p`.
pub fn chars_remove_all(s: &[char], p: &[char]) -> (r: Vec<char>)
    requires
        p@.len() > 0,
    ensures
        r@ == remove_all(s@, p@),
{
    let mut out: Vec<char> = Vec::new();
    let mut rest = slice_vec(s, 0, s.len());
    assert(rest@ =~= s@);
    loop
        invariant
            p@.len() > 0,
            remove_all(s@, p@) == out@ + remove_all(rest@, p@),
        decreases rest@.len(),
    {
        match chars_find(rest.as_slice(), p) {
            Some(i) => {
                assert(i + p@.len() <= rest@.len());
                let plen = p.len();
                assert(plen == p@.len());
                let rl = rest.len();
                assert(i + plen <= rl);
                let head = slice_vec(rest.as_slice(), 0, i);
                assert(head@ =~= rest@.take(i as int));
                push_chars(&mut out, head.as_slice());
                let tail = slice_vec(rest.as_slice(), i + plen, rest.len());
                assert(tail@ =~= rest@.skip(i + p@.len()));
                rest = tail;
            },
            None => {
                push_chars(&mut out, rest.as_slice());
                return out;
            },
        }
    }
}

} // verus!
