//! Searching and comparing byte strings.
use vstd::prelude::*;
use vstd::slice::slice_subrange;

verus! {

/// Whether `pattern` stands in `s` at position `i`.
pub open spec fn occurs_at(s: Seq<u8>, pattern: Seq<u8>, i: int) -> bool {
    0 <= i && i + pattern.len() <= s.len() && s.subrange(i, i + pattern.len()) == pattern
}

/// Whether `i` is the first position at which `pattern` stands in `s`.
pub open spec fn first_occurrence(s: Seq<u8>, pattern: Seq<u8>, i: int) -> bool {
    occurs_at(s, pattern, i) && forall|j: int| 0 <= j < i ==> !occurs_at(s, pattern, j)
}

/// Whether `pattern` stands anywhere in `s`.
pub open spec fn occurs(s: Seq<u8>, pattern: Seq<u8>) -> bool {
    exists|i: int| occurs_at(s, pattern, i)
}

pub fn same_bytes(a: &[u8], b: &[u8]) -> (r: bool)
    ensures
        r == (a@ == b@),
{
    if a.len() != b.len() {
        return false;
    }
    let mut i: usize = 0;
    while i < a.len()
        invariant
            i <= a@.len(),
            a@.len() == b@.len(),
            forall|j: int| 0 <= j < i ==> a@[j] == b@[j],
        decreases a@.len() - i,
    {
        if a[i] != b[i] {
            return false;
        }
        i += 1;
    }
    assert(a@ =~= b@);
    true
}

/// The first position of `pattern` in `s`.
pub fn find_bytes(s: &[u8], pattern: &[u8]) -> (r: Option<usize>)
    ensures
        match r {
            Some(i) => first_occurrence(s@, pattern@, i as int),
            None => !occurs(s@, pattern@),
        },
{
    if pattern.len() > s.len() {
        return None;
    }
    let total: usize = s.len();
    let last: usize = total - pattern.len();
    let mut i: usize = 0;
    loop
        invariant
            i <= last,
            last + pattern@.len() == total,
            total == s@.len(),
            forall|j: int| 0 <= j < i ==> !occurs_at(s@, pattern@, j),
        decreases last - i,
    {
        if same_bytes(slice_subrange(s, i, i + pattern.len()), pattern) {
            return Some(i);
        }
        if i == last {
            assert forall|j: int| !occurs_at(s@, pattern@, j) by {
                if occurs_at(s@, pattern@, j) {
                    assert(0 <= j <= last);
                }
            }
            return None;
        }
        i += 1;
    }
}

/// A copy of the given bytes.
pub fn bytes_of(s: &[u8]) -> (out: Vec<u8>)
    ensures
        out@ == s@,
{
    let mut out: Vec<u8> = Vec::new();
    append_bytes(&mut out, s);
    out
}

/// Puts the given bytes at the end of `out`.
pub fn append_bytes(out: &mut Vec<u8>, s: &[u8])
    ensures
        final(out)@ == old(out)@ + s@,
{
    let ghost start = out@;
    let mut i: usize = 0;
    while i < s.len()
        invariant
            i <= s@.len(),
            out@ == start + s@.take(i as int),
        decreases s@.len() - i,
    {
        out.push(s[i]);
        i += 1;
        assert(s@.take(i as int) =~= s@.take(i - 1).push(s@[i - 1]));
    }
    assert(s@.take(i as int) =~= s@);
}

} // verus!
