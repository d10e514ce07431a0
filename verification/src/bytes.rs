//! Helpers on byte strings, each stated over `Seq<u8>`.

use vstd::prelude::*;
use vstd::slice::slice_subrange;

verus! {

/// `prefix` is an initial part of `s`.
pub open spec fn is_prefix(prefix: Seq<u8>, s: Seq<u8>) -> bool {
    prefix.len() <= s.len() && s.subrange(0, prefix.len() as int) == prefix
}

/// Whether two byte strings hold the same bytes.
pub fn equal(a: &[u8], b: &[u8]) -> (same: bool)
    ensures
        same == (a@ == b@),
{
    if a.len() != b.len() {
        return false;
    }
    let mut i: usize = 0;
    while i < a.len()
        invariant
            a.len() == b.len(),
            i <= a.len(),
            forall|k: int| 0 <= k < i ==> a@[k] == b@[k],
        decreases a.len() - i,
    {
        if a[i] != b[i] {
            return false;
        }
        i += 1;
    }
    assert(a@ =~= b@);
    true
}

/// Whether `s` begins with `prefix`.
pub fn starts_with(s: &[u8], prefix: &[u8]) -> (yes: bool)
    ensures
        yes == is_prefix(prefix@, s@),
{
    if prefix.len() > s.len() {
        return false;
    }
    equal(slice_subrange(s, 0, prefix.len()), prefix)
}

/// Appends the bytes of `s` to `out`.
pub fn append(out: &mut Vec<u8>, s: &[u8])
    ensures
        final(out)@ == old(out)@ + s@,
{
    let mut i: usize = 0;
    while i < s.len()
        invariant
            i <= s.len(),
            out@ == old(out)@ + s@.take(i as int),
        decreases s.len() - i,
    {
        out.push(s[i]);
        i += 1;
    }
}

/// A copy of the bytes of `s`.
pub fn copy(s: &[u8]) -> (out: Vec<u8>)
    ensures
        out@ == s@,
{
    let mut out: Vec<u8> = Vec::new();
    append(&mut out, s);
    out
}

/// The lower-case form of an ASCII letter; any other byte is itself.
pub open spec fn lower(b: u8) -> u8 {
    if 0x41 <= b <= 0x5a {
        (b + 0x20) as u8
    } else {
        b
    }
}

/// Equality of byte strings up to the case of ASCII letters.
pub open spec fn same_ignoring_case(a: Seq<u8>, b: Seq<u8>) -> bool {
    a.len() == b.len() && forall|i: int| 0 <= i < a.len() ==> lower(#[trigger] a[i]) == lower(b[i])
}

pub fn to_lower(b: u8) -> (r: u8)
    ensures
        r == lower(b),
{
    if 0x41 <= b && b <= 0x5a {
        b + 0x20
    } else {
        b
    }
}

/// Whether two byte strings are equal up to the case of ASCII letters.
pub fn equal_ignoring_case(a: &[u8], b: &[u8]) -> (same: bool)
    ensures
        same == same_ignoring_case(a@, b@),
{
    if a.len() != b.len() {
        return false;
    }
    let mut i: usize = 0;
    while i < a.len()
        invariant
            a.len() == b.len(),
            i <= a.len(),
            forall|k: int| 0 <= k < i ==> lower(#[trigger] a@[k]) == lower(b@[k]),
        decreases a.len() - i,
    {
        if to_lower(a[i]) != to_lower(b[i]) {
            return false;
        }
        i += 1;
    }
    true
}

/// Where `pattern` first occurs in `s`, if it does.
pub open spec fn first_occurrence(s: Seq<u8>, pattern: Seq<u8>) -> Option<int>
    decreases s.len(),
{
    if is_prefix(pattern, s) {
        Some(0)
    } else if s.len() == 0 {
        None
    } else {
        match first_occurrence(s.skip(1), pattern) {
            Some(i) => Some(i + 1),
            None => None,
        }
    }
}

/// `first_occurrence` names the least index at which the pattern stands, and
/// is `None` only where it stands nowhere.
pub proof fn lemma_first_occurrence(s: Seq<u8>, pattern: Seq<u8>)
    ensures
        match first_occurrence(s, pattern) {
            Some(i) => {
                &&& 0 <= i <= s.len() - pattern.len()
                &&& s.subrange(i, i + pattern.len()) == pattern
                &&& forall|j: int| 0 <= j < i ==> !is_prefix(pattern, #[trigger] s.skip(j))
            },
            None => forall|j: int| 0 <= j <= s.len() ==> !is_prefix(pattern, #[trigger] s.skip(j)),
        },
    decreases s.len(),
{
    if is_prefix(pattern, s) {
    } else if s.len() == 0 {
        assert forall|j: int| 0 <= j <= s.len() implies !is_prefix(
            pattern,
            #[trigger] s.skip(j),
        ) by {
            assert(s.skip(0) =~= s);
        }
    } else {
        let t = s.skip(1);
        lemma_first_occurrence(t, pattern);
        assert(s.skip(0) =~= s);
        match first_occurrence(t, pattern) {
            Some(i) => {
                assert(t.subrange(i, i + pattern.len()) =~= s.subrange(
                    i + 1,
                    i + 1 + pattern.len(),
                ));
                assert forall|j: int| 0 <= j < i + 1 implies !is_prefix(
                    pattern,
                    #[trigger] s.skip(j),
                ) by {
                    if j > 0 {
                        assert(s.skip(j) =~= t.skip(j - 1));
                    }
                }
            },
            None => {
                assert forall|j: int| 0 <= j <= s.len() implies !is_prefix(
                    pattern,
                    #[trigger] s.skip(j),
                ) by {
                    if j > 0 {
                        assert(s.skip(j) =~= t.skip(j - 1));
                    }
                }
            },
        }
    }
}

/// Finds where `pattern` first occurs in `s`.
pub fn find(s: &[u8], pattern: &[u8]) -> (r: Option<usize>)
    ensures
        match r {
            Some(i) => first_occurrence(s@, pattern@) == Some(i as int) && i + pattern@.len()
                <= s@.len(),
            None => first_occurrence(s@, pattern@) is None,
        },
{
    if pattern.len() > s.len() {
        proof {
            lemma_first_occurrence(s@, pattern@);
        }
        return None;
    }
    let last: usize = s.len() - pattern.len();
    let mut i: usize = 0;
    assert(s@.skip(0) =~= s@);
    while i <= last
        invariant
            last == s.len() - pattern.len(),
            i <= last + 1,
            pattern@.len() == 0 ==> i == 0,
            match first_occurrence(s@.skip(i as int), pattern@) {
                Some(k) => first_occurrence(s@, pattern@) == Some(k + i),
                None => first_occurrence(s@, pattern@) is None,
            },
        decreases last + 1 - i,
    {
        let here: bool = equal(slice_subrange(s, i, i + pattern.len()), pattern);
        proof {
            assert(s@.skip(i as int).subrange(0, pattern@.len() as int) =~= s@.subrange(
                i as int,
                i + pattern@.len(),
            ));
        }
        if here {
            return Some(i);
        }
        proof {
            if pattern@.len() == 0 {
                assert(s@.subrange(i as int, i as int) =~= pattern@);
            }
            assert(s@.skip(i as int).skip(1) =~= s@.skip(i + 1));
        }
        i += 1;
    }
    proof {
        lemma_first_occurrence(s@.skip(i as int), pattern@);
    }
    None
}

} // verus!
