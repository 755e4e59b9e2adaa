//! Character-level helpers over string views.
use vstd::prelude::*;
use vstd::string::StrSliceExecFns;

verus! {

/// Two strings hold the same characters.
pub(crate) fn str_eq(a: &str, b: &str) -> (r: bool)
    ensures
        r == (a@ == b@),
{
    let n = a.unicode_len();
    if n != b.unicode_len() {
        return false;
    }
    let mut i: usize = 0;
    while i < n
        invariant
            n == a@.len(),
            n == b@.len(),
            i <= n,
            forall|j: int| 0 <= j < i ==> a@[j] == b@[j],
        decreases n - i,
    {
        if a.get_char(i) != b.get_char(i) {
            return false;
        }
        i += 1;
    }
    assert(a@ =~= b@);
    true
}

/// ASCII lowercase of one character, as `char::to_ascii_lowercase`.
pub open spec fn ascii_lower(c: char) -> char {
    if 'A' <= c && c <= 'Z' {
        ((c as u32) + 32) as char
    } else {
        c
    }
}

/// ASCII lowercase of every character.
pub open spec fn ascii_lowercase(s: Seq<char>) -> Seq<char> {
    Seq::new(s.len(), |i: int| ascii_lower(s[i]))
}

fn to_ascii_lower(c: char) -> (r: char)
    ensures
        r == ascii_lower(c),
{
    if 'A' <= c && c <= 'Z' {
        let code: u8 = (c as u8) + 32;
        code as char
    } else {
        c
    }
}

/// `a`, lowercased in ASCII, holds the same characters as `b`.
pub(crate) fn eq_ignore_ascii_case_to(a: &str, b: &str) -> (r: bool)
    ensures
        r == (ascii_lowercase(a@) == b@),
{
    let n = a.unicode_len();
    if n != b.unicode_len() {
        assert(ascii_lowercase(a@).len() != b@.len());
        return false;
    }
    let mut i: usize = 0;
    while i < n
        invariant
            n == a@.len(),
            n == b@.len(),
            i <= n,
            forall|j: int| 0 <= j < i ==> ascii_lower(a@[j]) == b@[j],
        decreases n - i,
    {
        if to_ascii_lower(a.get_char(i)) != b.get_char(i) {
            assert(ascii_lowercase(a@)[i as int] != b@[i as int]);
            return false;
        }
        i += 1;
    }
    assert(ascii_lowercase(a@) =~= b@);
    true
}

} // verus!
