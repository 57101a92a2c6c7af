//! The hash that names a project's cached environment.
use vstd::prelude::*;

use crate::detector::{language_name, Language};
use crate::util::text::{chars_of, push_chars, string_of};

verus! {

/// The SHA-256 digest of `data`, as the `sha2` crate computes it.
pub uninterp spec fn sha256(data: Seq<u8>) -> Seq<u8>;

/// `sha2::Sha256::digest`: the 32-byte SHA-256 digest of `data`.
#[verifier::external_body]
fn sha256_digest(data: &[u8]) -> (r: Vec<u8>)
    ensures
        r@ == sha256(data@),
        r@.len() == 32,
{
    <sha2::Sha256 as sha2::Digest>::digest(data).to_vec()
}

/// The lowercase hexadecimal digits, by value.
pub open spec fn hex_digits() -> Seq<char> {
    seq!['0', '1', '2', '3', '4', '5', '6', '7', '8', '9', 'a', 'b', 'c', 'd', 'e', 'f']
}

/// The lowercase hexadecimal digit of `n` (below 16).
pub open spec fn hex_digit(n: int) -> char {
    hex_digits()[n]
}

/// Bytes in lowercase hexadecimal, two digits per byte (`{:x}` of a digest).
pub open spec fn hex_lower(bytes: Seq<u8>) -> Seq<char>
    decreases bytes.len(),
{
    if bytes.len() == 0 {
        seq![]
    } else {
        hex_lower(bytes.drop_last()) + seq![
            hex_digit(bytes.last() as int / 16),
            hex_digit(bytes.last() as int % 16),
        ]
    }
}

/// The text that is hashed: the canonical root, the language, the runtime
/// version and the lockfile contents, one per line.
pub open spec fn hash_input(
    root: Seq<char>,
    language: Language,
    runtime_version: Seq<char>,
    lock_content: Seq<char>,
) -> Seq<char> {
    root + seq!['\n'] + language_name(language) + seq!['\n'] + runtime_version + seq!['\n']
        + lock_content
}

/// The first 16 hexadecimal digits of the SHA-256 of the UTF-8 hash input.
pub open spec fn project_hash_of(
    root: Seq<char>,
    language: Language,
    runtime_version: Seq<char>,
    lock_content: Seq<char>,
) -> Seq<char> {
    hex_lower(
        sha256(vstd::utf8::encode_utf8(hash_input(root, language, runtime_version, lock_content))),
    ).take(16)
}

fn hex_char(n: u8) -> (c: char)
    requires
        n < 16,
    ensures
        c == hex_digit(n as int),
{
    let digits: [char; 16] = [
        '0', '1', '2', '3', '4', '5', '6', '7', '8', '9', 'a', 'b', 'c', 'd', 'e', 'f',
    ];
    assert(digits@ =~= hex_digits());
    digits[n as usize]
}

/// Bytes in lowercase hexadecimal.
pub fn to_hex_lower(bytes: &[u8]) -> (s: Vec<char>)
    ensures
        s@ == hex_lower(bytes@),
{
    let mut s: Vec<char> = Vec::new();
    let mut i: usize = 0;
    while i < bytes.len()
        invariant
            i <= bytes@.len(),
            s@ == hex_lower(bytes@.take(i as int)),
        decreases bytes@.len() - i,
    {
        let b = bytes[i];
        assert(bytes@.take(i + 1).drop_last() =~= bytes@.take(i as int));
        s.push(hex_char(b / 16));
        s.push(hex_char(b % 16));
        i = i + 1;
    }
    assert(bytes@.take(i as int) =~= bytes@);
    s
}

/// A lowercase hexadecimal digit.
pub open spec fn is_hex_digit(c: char) -> bool {
    ('0' <= c && c <= '9') || ('a' <= c && c <= 'f')
}

proof fn lemma_hex_lower(bytes: Seq<u8>)
    ensures
        hex_lower(bytes).len() == 2 * bytes.len(),
        forall|i: int| 0 <= i < hex_lower(bytes).len() ==> is_hex_digit(#[trigger] hex_lower(bytes)[i]),
    decreases bytes.len(),
{
    if bytes.len() > 0 {
        lemma_hex_lower(bytes.drop_last());
        let b = bytes.last() as int;
        assert(is_hex_digit(hex_digit(b / 16)));
        assert(is_hex_digit(hex_digit(b % 16)));
    }
}

/// The hash of a project: the canonical path of its root, its language, the
/// runtime version and the contents of its lock (empty when it has none)
/// determine it.
pub fn project_hash(
    canonical_root: &str,
    language: Language,
    runtime_version: &str,
    lock_content: &str,
) -> (h: String)
    ensures
        h@ == project_hash_of(canonical_root@, language, runtime_version@, lock_content@),
        h@.len() == 16,
        forall|i: int| 0 <= i < 16 ==> is_hex_digit(#[trigger] h@[i]),
{
    let mut input = chars_of(canonical_root);
    input.push('\n');
    let lang = chars_of(language.as_str());
    push_chars(&mut input, lang.as_slice());
    input.push('\n');
    let version = chars_of(runtime_version);
    push_chars(&mut input, version.as_slice());
    input.push('\n');
    let lock = chars_of(lock_content);
    push_chars(&mut input, lock.as_slice());
    assert(input@ =~= hash_input(canonical_root@, language, runtime_version@, lock_content@));
    let text = string_of(input.as_slice());
    let digest = sha256_digest(text.as_str().as_bytes());
    let hex = to_hex_lower(digest.as_slice());
    proof {
        lemma_hex_lower(digest@);
    }
    let mut h: Vec<char> = Vec::new();
    let mut i: usize = 0;
    while i < 16
        invariant
            i <= 16,
            hex@.len() == 64,
            h@ == hex@.take(i as int),
        decreases 16 - i,
    {
        h.push(hex[i]);
        assert(h@ =~= hex@.take(i + 1));
        i = i + 1;
    }
    string_of(h.as_slice())
}

} // verus!
