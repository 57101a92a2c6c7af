//! Regular-expression matching and case folding, which the library takes
//! from the `regex` crate and from `std`.
use vstd::prelude::*;

verus! {

/// What the `regex` crate finds for `pattern` in `haystack`: `None` when the
/// pattern does not compile, otherwise, for each successive non-overlapping
/// match, the text of capture group 1 when it took part in the match.
pub uninterp spec fn regex_group_one(pattern: Seq<char>, haystack: Seq<char>) -> Option<
    Seq<Option<Seq<char>>>,
>;

/// The view of what `regex_group_one_matches` returns.
pub open spec fn matches_view(r: Option<Vec<Option<String>>>) -> Option<Seq<Option<Seq<char>>>> {
    match r {
        Some(v) => Some(
            v@.map_values(
                |o: Option<String>|
                    match o {
                        Some(s) => Some(s@),
                        None => None,
                    },
            ),
        ),
        None => None,
    }
}

/// Compiles `pattern` with `regex::Regex::new` and collects capture group 1
/// of every match of `Regex::captures_iter` over `haystack`. The contract
/// ties the result to `regex_group_one`, a function of the two texts; what
/// the regex engine matches is not stated here.
#[verifier::external_body]
pub fn regex_group_one_matches(pattern: &str, haystack: &str) -> (r: Option<Vec<Option<String>>>)
    ensures
        matches_view(r) == regex_group_one(pattern@, haystack@),
{
    match regex::Regex::new(pattern) {
        Ok(re) => Some(
            re.captures_iter(haystack).map(|caps| caps.get(1).map(|m| m.as_str().to_string())).collect(),
        ),
        Err(_) => None,
    }
}

/// What `str::to_lowercase` makes of a text (full Unicode lowercase mapping).
pub uninterp spec fn lowercase(s: Seq<char>) -> Seq<char>;

/// `str::to_lowercase`; the contract names its result `lowercase`.
#[verifier::external_body]
pub fn to_lowercase(s: &str) -> (r: String)
    ensures
        r@ == lowercase(s@),
{
    s.to_lowercase()
}

/// The texts of the capture groups that took part, in order.
pub open spec fn present(caps: Seq<Option<Seq<char>>>) -> Seq<Seq<char>>
    decreases caps.len(),
{
    if caps.len() == 0 {
        seq![]
    } else {
        match caps.last() {
            Some(s) => present(caps.drop_last()).push(s),
            None => present(caps.drop_last()),
        }
    }
}

/// The captured texts of a match result; none when the pattern did not compile.
pub open spec fn captured(r: Option<Seq<Option<Seq<char>>>>) -> Seq<Seq<char>> {
    match r {
        Some(caps) => present(caps),
        None => seq![],
    }
}

/// Appends to `out` the captured texts of `pattern` in `haystack`.
pub fn push_captures(pattern: &str, haystack: &str, out: &mut Vec<String>)
    ensures
        final(out)@.map_values(|s: String| s@) == old(out)@.map_values(|s: String| s@) + captured(
            regex_group_one(pattern@, haystack@),
        ),
{
    let ghost start = out@.map_values(|s: String| s@);
    match regex_group_one_matches(pattern, haystack) {
        Some(caps) => {
            let ghost cv = caps@.map_values(
                |o: Option<String>|
                    match o {
                        Some(s) => Some(s@),
                        None => None,
                    },
            );
            let mut i: usize = 0;
            while i < caps.len()
                invariant
                    i <= caps@.len(),
                    cv.len() == caps@.len(),
                    forall|k: int|
                        0 <= k < caps@.len() ==> #[trigger] cv[k] == match caps@[k] {
                            Some(s) => Some(s@),
                            None => None,
                        },
                    out@.map_values(|s: String| s@) == start + present(cv.take(i as int)),
                decreases caps@.len() - i,
            {
                assert(cv.take(i + 1).drop_last() =~= cv.take(i as int));
                match &caps[i] {
                    Some(s) => {
                        assert(cv[i as int] == Some(s@));
                        assert(cv.take(i + 1).last() == Some(s@));
                        assert(present(cv.take(i + 1)) == present(cv.take(i as int)).push(s@));
                        let ghost before = out@;
                        let c = s.clone();
                        assert(c@ == s@);
                        out.push(c);
                        assert(out@ == before.push(c));
                        assert(before.map_values(|s: String| s@) == start + present(cv.take(i as int)));
                        assert(out@.map_values(|s: String| s@) =~= before.map_values(|s: String| s@).push(s@));
                        assert(start + present(cv.take(i as int)).push(s@) =~= (start + present(cv.take(i as int))).push(s@));
                        assert(out@.map_values(|s: String| s@) =~= start + present(
                            cv.take(i + 1),
                        ));
                    },
                    None => {
                        assert(out@.map_values(|s: String| s@) =~= start + present(
                            cv.take(i + 1),
                        ));
                    },
                }
                i = i + 1;
            }
            assert(cv.take(i as int) =~= cv);
        },
        None => {
            assert(out@.map_values(|s: String| s@) =~= start + captured(None));
        },
    }
}

} // verus!
