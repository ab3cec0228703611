//! The pattern matcher: does an entry name satisfy a search pattern?
//!
//! The three literal pattern forms compare names byte for byte.  When a
//! comparison is case-insensitive, each byte in the ASCII range
//! `a`..`z` is folded to its upper-case form first and every other
//! byte compares literally; this is a deliberate ASCII-only fold, not a
//! Unicode case fold.  The regular-expression form delegates to the
//! compiled pattern, whose own flags — not the search's
//! case-sensitivity switch — decide its case behaviour.

use vstd::prelude::*;
use vstd::utf8::encode_utf8;
use crate::regexes::{regex_accepts, regex_compiles, CompiledRegex};

verus! {

/// The ASCII fold: a lower-case ASCII letter becomes upper case, every
/// other byte is unchanged.
pub open spec fn fold_byte(b: u8) -> u8 {
    if 96 < b < 123 {
        (b - 32) as u8
    } else {
        b
    }
}

/// A byte sequence with the ASCII fold applied to every byte.
pub open spec fn folded(s: Seq<u8>) -> Seq<u8> {
    s.map_values(|b: u8| fold_byte(b))
}

/// `key` occurs in `input` starting at offset `b`, byte for byte.
pub open spec fn window_at(key: Seq<u8>, input: Seq<u8>, b: int) -> bool {
    forall|i: int| 0 <= i < key.len() ==> input[b + i] == key[i]
}

/// `key` occurs in `input` at offset `b` up to the ASCII fold.
pub open spec fn ci_window_at(key: Seq<u8>, input: Seq<u8>, b: int) -> bool {
    forall|i: int| 0 <= i < key.len() ==> fold_byte(input[b + i]) == fold_byte(key[i])
}

/// `input` starts with `key`.
pub open spec fn is_prefix(key: Seq<u8>, input: Seq<u8>) -> bool {
    key.len() <= input.len() && window_at(key, input, 0)
}

/// `input` ends with `key`.
pub open spec fn is_suffix(key: Seq<u8>, input: Seq<u8>) -> bool {
    key.len() <= input.len() && window_at(key, input, input.len() - key.len())
}

/// `key` occurs somewhere in `input`.
pub open spec fn is_substring(key: Seq<u8>, input: Seq<u8>) -> bool {
    key.len() <= input.len() && exists|b: int|
        0 <= b <= input.len() - key.len() && window_at(key, input, b)
}

/// `input` starts with `key` up to the ASCII fold.
pub open spec fn ci_is_prefix(key: Seq<u8>, input: Seq<u8>) -> bool {
    key.len() <= input.len() && ci_window_at(key, input, 0)
}

/// `input` ends with `key` up to the ASCII fold.
pub open spec fn ci_is_suffix(key: Seq<u8>, input: Seq<u8>) -> bool {
    key.len() <= input.len() && ci_window_at(key, input, input.len() - key.len())
}

/// `key` occurs somewhere in `input` up to the ASCII fold.
pub open spec fn ci_is_substring(key: Seq<u8>, input: Seq<u8>) -> bool {
    key.len() <= input.len() && exists|b: int|
        0 <= b <= input.len() - key.len() && ci_window_at(key, input, b)
}

/// Comparing two windows up to the fold is the same as folding both
/// sequences first and comparing the windows exactly.
pub proof fn lemma_fold_window(key: Seq<u8>, input: Seq<u8>, b: int)
    requires
        0 <= b,
        b + key.len() <= input.len(),
    ensures
        ci_window_at(key, input, b) == window_at(folded(key), folded(input), b),
{
    assert(folded(key).len() == key.len());
    assert(folded(input).len() == input.len());
    if ci_window_at(key, input, b) {
        assert forall|i: int| 0 <= i < folded(key).len() implies folded(input)[b + i] == folded(
            key,
        )[i] by {
            assert(fold_byte(input[b + i]) == fold_byte(key[i]));
        }
    }
    if window_at(folded(key), folded(input), b) {
        assert forall|i: int| 0 <= i < key.len() implies fold_byte(input[b + i]) == fold_byte(
            key[i],
        ) by {
            assert(folded(input)[b + i] == folded(key)[i]);
        }
    }
}

/// Case-insensitive prefix matching is folding both sides and then
/// matching case-sensitively.
pub proof fn lemma_fold_equivalence_prefix(key: Seq<u8>, input: Seq<u8>)
    ensures
        ci_is_prefix(key, input) == is_prefix(folded(key), folded(input)),
{
    if key.len() <= input.len() {
        lemma_fold_window(key, input, 0);
    }
}

/// Case-insensitive suffix matching is folding both sides and then
/// matching case-sensitively.
pub proof fn lemma_fold_equivalence_suffix(key: Seq<u8>, input: Seq<u8>)
    ensures
        ci_is_suffix(key, input) == is_suffix(folded(key), folded(input)),
{
    if key.len() <= input.len() {
        lemma_fold_window(key, input, input.len() - key.len());
    }
}

/// Case-insensitive substring matching is folding both sides and then
/// matching case-sensitively.
pub proof fn lemma_fold_equivalence_substring(key: Seq<u8>, input: Seq<u8>)
    ensures
        ci_is_substring(key, input) == is_substring(folded(key), folded(input)),
{
    if ci_is_substring(key, input) {
        let b = choose|b: int|
            0 <= b <= input.len() - key.len() && ci_window_at(key, input, b);
        lemma_fold_window(key, input, b);
        assert(window_at(folded(key), folded(input), b));
    }
    if is_substring(folded(key), folded(input)) {
        let b = choose|b: int|
            0 <= b <= folded(input).len() - folded(key).len() && window_at(
                folded(key),
                folded(input),
                b,
            );
        lemma_fold_window(key, input, b);
        assert(ci_window_at(key, input, b));
    }
}

fn fold_byte_exec(b: u8) -> (r: u8)
    ensures
        r == fold_byte(b),
{
    if b > 96 && b < 123 {
        b - 32
    } else {
        b
    }
}

/// Compares the window of `input` at offset `b` against `key`, folding
/// both sides when `fold` is set.
fn window_eq(key: &[u8], input: &[u8], b: usize, fold: bool) -> (r: bool)
    requires
        b + key@.len() <= input@.len(),
    ensures
        fold ==> r == ci_window_at(key@, input@, b as int),
        !fold ==> r == window_at(key@, input@, b as int),
{
    let klen = key.len();
    let ilen = input.len();
    let mut i: usize = 0;
    while i < klen
        invariant
            i <= klen,
            klen == key@.len(),
            ilen == input@.len(),
            b + klen <= ilen,
            fold ==> forall|j: int|
                0 <= j < i ==> fold_byte(input@[b + j]) == fold_byte(key@[j]),
            !fold ==> forall|j: int| 0 <= j < i ==> input@[b + j] == key@[j],
        decreases klen - i,
    {
        let kb = key[i];
        let ib = input[b + i];
        if fold {
            if fold_byte_exec(kb) != fold_byte_exec(ib) {
                return false;
            }
        } else {
            if kb != ib {
                return false;
            }
        }
        i = i + 1;
    }
    true
}

/// True iff `input` starts with `key`, byte for byte.
fn starts_with_exact(key: &[u8], input: &[u8]) -> (r: bool)
    ensures
        r == is_prefix(key@, input@),
{
    if input.len() < key.len() {
        return false;
    }
    window_eq(key, input, 0, false)
}

/// True iff `input` ends with `key`, byte for byte.
fn ends_with_exact(key: &[u8], input: &[u8]) -> (r: bool)
    ensures
        r == is_suffix(key@, input@),
{
    if input.len() < key.len() {
        return false;
    }
    window_eq(key, input, input.len() - key.len(), false)
}

/// True iff `key` occurs in `input`, byte for byte: the naive scan,
/// one window per start offset.
fn contains_exact(key: &[u8], input: &[u8]) -> (r: bool)
    ensures
        r == is_substring(key@, input@),
{
    if input.len() < key.len() {
        return false;
    }
    let last = input.len() - key.len();
    let mut b: usize = 0;
    loop
        invariant
            b <= last,
            last == input@.len() - key@.len(),
            forall|c: int| 0 <= c < b ==> !window_at(key@, input@, c),
        decreases last - b,
    {
        if window_eq(key, input, b, false) {
            return true;
        }
        if b == last {
            return false;
        }
        b = b + 1;
    }
}

/// A pattern over entry names.
pub enum SearchType {
    Regex(CompiledRegex),
    MatchBegining(String),
    MatchMiddle(String),
    MatchEnding(String),
}

impl SearchType {
    /// Whether the pattern accepts `input` under the given
    /// case-sensitivity.  The regular-expression form answers from the
    /// compiled pattern alone; its case behaviour is fixed at
    /// compilation and the flag has no effect on it.
    pub open spec fn matches_spec(&self, input: Seq<char>, sensitive: bool) -> bool {
        match self {
            SearchType::Regex(c) => regex_accepts(c.pattern(), input),
            SearchType::MatchBegining(key) => if sensitive {
                is_prefix(encode_utf8(key@), encode_utf8(input))
            } else {
                ci_is_prefix(encode_utf8(key@), encode_utf8(input))
            },
            SearchType::MatchMiddle(key) => if sensitive {
                is_substring(encode_utf8(key@), encode_utf8(input))
            } else {
                ci_is_substring(encode_utf8(key@), encode_utf8(input))
            },
            SearchType::MatchEnding(key) => if sensitive {
                is_suffix(encode_utf8(key@), encode_utf8(input))
            } else {
                ci_is_suffix(encode_utf8(key@), encode_utf8(input))
            },
        }
    }

    /// Builds a pattern from a request: the first three kind codes pick
    /// a literal form and keep the key as given; any other code
    /// compiles the key as a regular expression and fails exactly when
    /// the key is no valid pattern.
    pub(crate) fn parse_regex(search_kind: u8, search_key: String) -> (r: Option<SearchType>)
        ensures
            search_kind == 0 ==> (r matches Some(SearchType::MatchBegining(k)) && k@
                == search_key@),
            search_kind == 1 ==> (r matches Some(SearchType::MatchEnding(k)) && k@
                == search_key@),
            search_kind == 2 ==> (r matches Some(SearchType::MatchMiddle(k)) && k@
                == search_key@),
            search_kind >= 3 ==> (r is Some <==> regex_compiles(search_key@)),
            search_kind >= 3 ==> (r matches Some(t) ==> t matches SearchType::Regex(c)
                && c.pattern() == search_key@),
    {
        match search_kind {
            0 => Some(SearchType::MatchBegining(search_key)),
            1 => Some(SearchType::MatchEnding(search_key)),
            2 => Some(SearchType::MatchMiddle(search_key)),
            _ => match CompiledRegex::compile(search_key.as_str()) {
                Some(c) => Some(SearchType::Regex(c)),
                None => None,
            },
        }
    }

    /// Decides whether `input` satisfies the pattern.
    pub fn matches(&self, input: &str, sensitive: bool) -> (r: bool)
        ensures
            r == self.matches_spec(input@, sensitive),
    {
        match self {
            SearchType::Regex(pattern) => pattern.is_match(input),
            SearchType::MatchBegining(key) => if sensitive {
                starts_with_exact(key.as_str().as_bytes(), input.as_bytes())
            } else {
                Self::starts_with_ignore_case(key.as_str(), input)
            },
            SearchType::MatchMiddle(key) => if sensitive {
                contains_exact(key.as_str().as_bytes(), input.as_bytes())
            } else {
                Self::contains_ignore_case(key.as_str(), input)
            },
            SearchType::MatchEnding(key) => if sensitive {
                ends_with_exact(key.as_str().as_bytes(), input.as_bytes())
            } else {
                Self::ends_with_ignore_case(key.as_str(), input)
            },
        }
    }

    /// Case-insensitive prefix test under the ASCII fold.
    fn starts_with_ignore_case(key: &str, input: &str) -> (r: bool)
        ensures
            r == ci_is_prefix(encode_utf8(key@), encode_utf8(input@)),
    {
        let kb = key.as_bytes();
        let ib = input.as_bytes();
        if ib.len() < kb.len() {
            return false;
        }
        window_eq(kb, ib, 0, true)
    }

    /// Case-insensitive suffix test under the ASCII fold.
    fn ends_with_ignore_case(key: &str, input: &str) -> (r: bool)
        ensures
            r == ci_is_suffix(encode_utf8(key@), encode_utf8(input@)),
    {
        let kb = key.as_bytes();
        let ib = input.as_bytes();
        if ib.len() < kb.len() {
            return false;
        }
        window_eq(kb, ib, ib.len() - kb.len(), true)
    }

    /// Case-insensitive substring test under the ASCII fold: the naive
    /// scan, one window per start offset.
    fn contains_ignore_case(key: &str, input: &str) -> (r: bool)
        ensures
            r == ci_is_substring(encode_utf8(key@), encode_utf8(input@)),
    {
        let kb = key.as_bytes();
        let ib = input.as_bytes();
        if ib.len() < kb.len() {
            return false;
        }
        let last = ib.len() - kb.len();
        let mut b: usize = 0;
        loop
            invariant
                b <= last,
                last == ib@.len() - kb@.len(),
                kb@ == encode_utf8(key@),
                ib@ == encode_utf8(input@),
                forall|c: int| 0 <= c < b ==> !ci_window_at(kb@, ib@, c),
            decreases last - b,
        {
            if window_eq(kb, ib, b, true) {
                return true;
            }
            if b == last {
                return false;
            }
            b = b + 1;
        }
    }
}

} // verus!
