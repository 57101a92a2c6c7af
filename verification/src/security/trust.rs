//! Checks on package names before anything is installed.
use vstd::prelude::*;

use crate::error::CapsuleError;
use crate::util::patterns::{lowercase, to_lowercase};
use crate::util::text::{
    chars_contains, chars_find, chars_of, chars_split, find_sub, is_whitespace, is_ws,
    lemma_find_sub_found, lemma_find_sub_occurs, split_char,
    str_eq, trim,
};

verus! {

/// Characters that a shell gives a meaning to.
pub open spec fn is_shell_char(c: char) -> bool {
    c == ';' || c == '&' || c == '|' || c == '`' || c == '$' || c == '<' || c == '>' || c == '('
        || c == ')'
}

/// `@scope/pkg`: exactly one `/`, a scope of `@` and at least one more
/// character, and a non-empty package.
pub open spec fn is_scoped_npm_name(name: Seq<char>) -> bool {
    let parts = split_char(name, '/');
    &&& parts.len() == 2
    &&& parts[0].len() > 1
    &&& parts[0][0] == '@'
    &&& parts[1].len() > 0
}

/// A package name that must not reach an installer.
pub open spec fn is_suspicious(name: Seq<char>) -> bool {
    ||| name.len() == 0
    ||| name[0] == '-'
    ||| (exists|i: int| 0 <= i < name.len() && is_ws(#[trigger] name[i]))
    ||| find_sub(name, ".."@) is Some
    ||| (exists|i: int| 0 <= i < name.len() && is_shell_char(#[trigger] name[i]))
    ||| name.contains('\\')
    ||| (name.contains('/') && !is_scoped_npm_name(name))
}

/// What makes a package name refused, wherever it stands in the name: an
/// empty name, a leading `-`, a space, tab, line break or carriage return,
/// one of `;`, `&`, `|`, a backquote, `$`, `<`, `>`, `(`, `)`, a backslash,
/// or two dots in a row.
pub proof fn injection_names_are_suspicious(name: Seq<char>, i: int)
    ensures
        name.len() == 0 ==> is_suspicious(name),
        name.len() > 0 && name[0] == '-' ==> is_suspicious(name),
        0 <= i < name.len() && {
            let c = name[i];
            ||| c == ' '
            ||| c == '\t'
            ||| c == '\n'
            ||| c == '\r'
            ||| c == ';'
            ||| c == '&'
            ||| c == '|'
            ||| c == '`'
            ||| c == '$'
            ||| c == '<'
            ||| c == '>'
            ||| c == '('
            ||| c == ')'
            ||| c == '\\'
        } ==> is_suspicious(name),
        0 <= i && i + 1 < name.len() && name[i] == '.' && name[i + 1] == '.' ==> is_suspicious(name),
{
    if 0 <= i < name.len() && name[i] == '\\' {
        assert(name.contains('\\'));
    }
    if 0 <= i && i + 1 < name.len() && name[i] == '.' && name[i + 1] == '.' {
        reveal_strlit("..");
        assert(name.subrange(i, i + 2) =~= ".."@);
        lemma_find_sub_found(name, ".."@, i);
    }
}

/// An ordinary package name is accepted: a non-empty name of ASCII letters,
/// digits, `-`, `_` and `.`, not starting with `-` and without two dots in a
/// row.
pub proof fn plain_names_are_not_suspicious(name: Seq<char>)
    requires
        name.len() > 0,
        name[0] != '-',
        forall|j: int|
            0 <= j < name.len() ==> {
                let c = #[trigger] name[j];
                ||| 'a' <= c <= 'z'
                ||| 'A' <= c <= 'Z'
                ||| '0' <= c <= '9'
                ||| c == '-'
                ||| c == '_'
                ||| c == '.'
            },
        forall|j: int| 0 <= j && j + 1 < name.len() ==> !(#[trigger] name[j] == '.' && name[j + 1] == '.'),
    ensures
        !is_suspicious(name),
{
    if find_sub(name, ".."@) is Some {
        lemma_find_sub_occurs(name, ".."@);
        let k = find_sub(name, ".."@)->0;
        reveal_strlit("..");
        assert(name.subrange(k, k + 2)[0] == name[k]);
        assert(name.subrange(k, k + 2)[1] == name[k + 1]);
    }
}

/// Whether `name` is a valid scoped npm name.
fn valid_scoped_npm(name: &[char]) -> (b: bool)
    ensures
        b == is_scoped_npm_name(name@),
{
    let parts = chars_split(name, '/');
    proof {
        crate::util::text::lemma_split_char_nonempty(name@, '/');
    }
    parts.len() == 2 && parts[0].len() > 1 && parts[0][0] == '@' && parts[1].len() > 0
}

/// Whether the package name is suspicious: empty, an option, holding
/// whitespace, `..`, shell characters or `\`, or a `/` that is not the one
/// of a scoped npm name.
pub fn suspicious_package_name(name: &str) -> (b: bool)
    ensures
        b == is_suspicious(name@),
{
    let s = chars_of(name);
    if s.len() == 0 || s[0] == '-' {
        return true;
    }
    let mut i: usize = 0;
    while i < s.len()
        invariant
            i <= s@.len(),
            s@ == name@,
            forall|k: int| 0 <= k < i ==> !is_ws(#[trigger] s@[k]),
        decreases s@.len() - i,
    {
        if is_whitespace(s[i]) {
            return true;
        }
        i = i + 1;
    }
    let dots = chars_of("..");
    proof {
        reveal_strlit("..");
    }
    if chars_find(s.as_slice(), dots.as_slice()).is_some() {
        return true;
    }
    let mut j: usize = 0;
    while j < s.len()
        invariant
            j <= s@.len(),
            s@ == name@,
            forall|k: int| 0 <= k < j ==> !is_shell_char(#[trigger] s@[k]),
        decreases s@.len() - j,
    {
        let c = s[j];
        if c == ';' || c == '&' || c == '|' || c == '`' || c == '$' || c == '<' || c == '>' || c
            == '(' || c == ')' {
            assert(is_shell_char(s@[j as int]));
            return true;
        }
        j = j + 1;
    }
    if chars_contains(s.as_slice(), '\\') {
        return true;
    }
    if chars_contains(s.as_slice(), '/') {
        return !valid_scoped_npm(s.as_slice());
    }
    false
}

/// The suspicious names of `packages`, in order.
pub open spec fn suspicious_names(packages: Seq<Seq<char>>) -> Seq<Seq<char>> {
    packages.filter(|p: Seq<char>| is_suspicious(p))
}

/// Refuses the list when any name is suspicious, naming them all.
pub fn validate_packages(packages: &[String]) -> (r: Result<(), CapsuleError>)
    ensures
        r is Ok <==> forall|i: int| 0 <= i < packages@.len() ==> !is_suspicious(#[trigger] packages@[i]@),
        r matches Err(e) ==> e matches CapsuleError::SuspiciousPackages(bad) && bad@.map_values(
            |s: String| s@,
        ) == suspicious_names(packages@.map_values(|s: String| s@)),
{
    let ghost names = packages@.map_values(|s: String| s@);
    let mut bad: Vec<String> = Vec::new();
    let mut i: usize = 0;
    while i < packages.len()
        invariant
            i <= packages@.len(),
            names == packages@.map_values(|s: String| s@),
            bad@.map_values(|s: String| s@) == suspicious_names(names.take(i as int)),
            bad@.len() == 0 <==> forall|k: int| 0 <= k < i ==> !is_suspicious(#[trigger] names[k]),
        decreases packages@.len() - i,
    {
        proof {
            reveal_with_fuel(Seq::filter, 1);
            assert(names.take(i + 1).drop_last() =~= names.take(i as int));
        }
        if suspicious_package_name(packages[i].as_str()) {
            bad.push(packages[i].clone());
            assert(bad@.map_values(|s: String| s@) =~= suspicious_names(names.take(i + 1)));
        } else {
            assert(bad@.map_values(|s: String| s@) =~= suspicious_names(names.take(i + 1)));
        }
        i = i + 1;
    }
    assert(names.take(i as int) =~= names);
    assert forall|k: int| 0 <= k < packages@.len() implies #[trigger] packages@[k]@ == names[k] by {}
    if bad.len() > 0 {
        return Err(CapsuleError::SuspiciousPackages(bad));
    }
    Ok(())
}

/// Whether installing `packages` needs the user's consent: never for an
/// empty list or with `yes`; a list with a suspicious name is refused first.
pub fn confirmation_needed(packages: &[String], yes: bool) -> (r: Result<bool, CapsuleError>)
    ensures
        r is Ok <==> forall|i: int| 0 <= i < packages@.len() ==> !is_suspicious(#[trigger] packages@[i]@),
        r matches Err(e) ==> e matches CapsuleError::SuspiciousPackages(bad) && bad@.map_values(
            |s: String| s@,
        ) == suspicious_names(packages@.map_values(|s: String| s@)),
        r matches Ok(ask) ==> ask == (packages@.len() > 0 && !yes),
{
    validate_packages(packages)?;
    Ok(packages.len() > 0 && !yes)
}


/// An answer that accepts: `y` or `yes` in any case, around whitespace.
pub open spec fn accepts(answer: Seq<char>) -> bool {
    lowercase(trim(answer)) == "y"@ || lowercase(trim(answer)) == "yes"@
}

/// Whether the user's answer to the install question accepts.
pub fn answer_accepts(answer: &str) -> (b: bool)
    ensures
        b == accepts(answer@),
{
    let chars = chars_of(answer);
    let trimmed = crate::util::text::chars_trim(chars.as_slice());
    let text = crate::util::text::string_of(trimmed.as_slice());
    let lower = to_lowercase(text.as_str());
    str_eq(lower.as_str(), "y") || str_eq(lower.as_str(), "yes")
}

} // verus!
