//! Small verified string helpers: locating characters and substrings,
//! ASCII case-insensitive comparison, and first-occurrence replacement.

use vstd::prelude::*;

verus! {

/// The position of the last occurrence of `c` in `s`, if any.
pub open spec fn last_index_of_char(s: Seq<char>, c: char) -> Option<int>
    decreases s.len(),
{
    if s.len() == 0 {
        None
    } else if s.last() == c {
        Some(s.len() - 1)
    } else {
        last_index_of_char(s.drop_last(), c)
    }
}

/// A found last index is in bounds and carries the character.
pub proof fn lemma_last_index_found(s: Seq<char>, c: char, i: int)
    requires
        last_index_of_char(s, c) == Some(i),
    ensures
        0 <= i < s.len(),
        s[i] == c,
    decreases s.len(),
{
    if s.len() > 0 && s.last() != c {
        lemma_last_index_found(s.drop_last(), c, i);
    }
}

/// Finds the last occurrence of `c`, scanning from the end.
pub fn last_index_of(s: &str, c: char) -> (r: Option<usize>)
    ensures
        match r {
            Some(i) => last_index_of_char(s@, c) == Some(i as int),
            None => last_index_of_char(s@, c) is None,
        },
{
    let mut k: usize = s.unicode_len();
    proof {
        assert(s@.take(k as int) =~= s@);
    }
    while k > 0
        invariant
            k <= s@.len(),
            last_index_of_char(s@, c) == last_index_of_char(s@.take(k as int), c),
        decreases k,
    {
        let ch = s.get_char(k - 1);
        proof {
            assert(s@.take(k as int).drop_last() =~= s@.take(k - 1 as int));
            assert(s@.take(k as int).last() == s@[k - 1]);
        }
        if ch == c {
            return Some(k - 1);
        }
        k = k - 1;
    }
    proof {
        assert(s@.take(0) =~= Seq::<char>::empty());
    }
    None
}

/// The Unicode-lowercased form of a character sequence, as
/// `str::to_lowercase` defines it: a function of the characters alone, on
/// every machine.
pub uninterp spec fn lower_of(s: Seq<char>) -> Seq<char>;

/// Relies on `str::to_lowercase`: the result depends on the characters
/// alone; an empty string stays empty.
#[verifier::external_body]
pub(crate) fn to_lowercase(s: &str) -> (r: String)
    ensures
        r@ == lower_of(s@),
        s@.len() == 0 ==> r@.len() == 0,
{
    s.to_lowercase()
}

/// The code point of `c` with an ASCII capital letter folded to its small
/// form; other characters are untouched.
pub open spec fn lower_code(c: char) -> int {
    if 65 <= c as int <= 90 {
        c as int + 32
    } else {
        c as int
    }
}

/// Whether `a` and `b` are the same string up to ASCII case.
pub open spec fn eq_ignore_ascii_case(a: Seq<char>, b: Seq<char>) -> bool {
    a.len() == b.len() && (forall|i: int| 0 <= i < a.len() ==> lower_code(a[i]) == lower_code(b[i]))
}

fn lower_code_of(c: char) -> (r: u32)
    ensures
        r as int == lower_code(c),
{
    let u = c as u32;
    if 65 <= u && u <= 90 {
        u + 32
    } else {
        u
    }
}

/// Compares two strings, treating ASCII capital and small letters alike.
pub fn eq_ignore_case(a: &str, b: &str) -> (r: bool)
    ensures
        r == eq_ignore_ascii_case(a@, b@),
{
    let alen = a.unicode_len();
    if alen != b.unicode_len() {
        return false;
    }
    let mut i: usize = 0;
    while i < alen
        invariant
            i <= alen,
            alen == a@.len(),
            alen == b@.len(),
            forall|j: int| 0 <= j < i ==> lower_code(a@[j]) == lower_code(b@[j]),
        decreases alen - i,
    {
        let ca = lower_code_of(a.get_char(i));
        let cb = lower_code_of(b.get_char(i));
        if ca != cb {
            return false;
        }
        i = i + 1;
    }
    true
}

/// Whether `pat` occurs in `s` starting at position `i`.
pub open spec fn matches_at(s: Seq<char>, pat: Seq<char>, i: int) -> bool {
    0 <= i && i + pat.len() <= s.len() && s.subrange(i, i + pat.len()) == pat
}

/// The position of the first occurrence of `pat` in `s` at or after `i`,
/// if any.
pub open spec fn first_match_from(s: Seq<char>, pat: Seq<char>, i: int) -> Option<int>
    decreases s.len() - i + 1,
{
    if i < 0 || i + pat.len() > s.len() {
        None
    } else if matches_at(s, pat, i) {
        Some(i)
    } else {
        first_match_from(s, pat, i + 1)
    }
}

/// The position of the first occurrence of `pat` in `s`, if any.
pub open spec fn first_match(s: Seq<char>, pat: Seq<char>) -> Option<int> {
    first_match_from(s, pat, 0)
}

/// `s` with the first occurrence of `pat`, if there is one, replaced by
/// `repl`; `s` itself when `pat` does not occur.
pub open spec fn replace_first_spec(s: Seq<char>, pat: Seq<char>, repl: Seq<char>) -> Seq<char> {
    match first_match(s, pat) {
        Some(i) => s.take(i) + repl + s.skip(i + pat.len()),
        None => s,
    }
}

/// Whether `pat` occurs in `s` starting exactly at position `i`.
fn occurs_at(s: &str, pat: &str, i: usize) -> (r: bool)
    requires
        i + pat@.len() <= s@.len(),
    ensures
        r == matches_at(s@, pat@, i as int),
{
    let slen = s.unicode_len();
    let plen = pat.unicode_len();
    let mut j: usize = 0;
    while j < plen
        invariant
            j <= plen,
            plen == pat@.len(),
            slen == s@.len(),
            i + plen <= slen,
            forall|t: int| 0 <= t < j ==> s@[i + t] == pat@[t],
        decreases plen - j,
    {
        if s.get_char(i + j) != pat.get_char(j) {
            proof {
                assert(s@.subrange(i as int, i + pat@.len())[j as int] == s@[i + j]);
            }
            return false;
        }
        j = j + 1;
    }
    proof {
        assert(s@.subrange(i as int, i + pat@.len()) =~= pat@);
    }
    true
}

/// A found first match lies where the pattern occurs, and bounds follow.
pub proof fn lemma_first_match_found(s: Seq<char>, pat: Seq<char>, j: int, i: int)
    requires
        first_match_from(s, pat, j) == Some(i),
    ensures
        matches_at(s, pat, i),
        j <= i,
    decreases s.len() - j + 1,
{
    if !(j < 0 || j + pat.len() > s.len()) && !matches_at(s, pat, j) {
        lemma_first_match_found(s, pat, j + 1, i);
    }
}

/// Finds the first occurrence of `pat` in `s`.
pub fn find_first(s: &str, pat: &str) -> (r: Option<usize>)
    ensures
        match r {
            Some(i) => first_match(s@, pat@) == Some(i as int),
            None => first_match(s@, pat@) is None,
        },
{
    let slen = s.unicode_len();
    let plen = pat.unicode_len();
    if plen > slen {
        return None;
    }
    if plen == 0 {
        proof {
            assert(s@.subrange(0, 0) =~= pat@);
        }
        return Some(0);
    }
    let mut i: usize = 0;
    while i <= slen - plen
        invariant
            i <= slen,
            1 <= plen <= slen,
            slen == s@.len(),
            plen == pat@.len(),
            first_match(s@, pat@) == first_match_from(s@, pat@, i as int),
        decreases slen - i,
    {
        if occurs_at(s, pat, i) {
            return Some(i);
        }
        i = i + 1;
    }
    None
}

/// `s` with the first occurrence of `pat`, if any, replaced by `repl`.
pub fn replace_first(s: &str, pat: &str, repl: &str) -> (r: String)
    ensures
        r@ == replace_first_spec(s@, pat@, repl@),
{
    match find_first(s, pat) {
        Some(i) => {
            proof {
                lemma_first_match_found(s@, pat@, 0, i as int);
            }
            let slen = s.unicode_len();
            let plen = pat.unicode_len();
            let mut out = String::new();
            out.append(s.substring_char(0, i));
            out.append(repl);
            out.append(s.substring_char(i + plen, slen));
            proof {
                assert(s@.subrange(0, i as int) =~= s@.take(i as int));
                assert(s@.subrange(i + pat@.len(), s@.len() as int) =~= s@.skip(i + pat@.len()));
            }
            out
        },
        None => String::from_str(s),
    }
}

} // verus!
