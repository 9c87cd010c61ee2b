//! Byte-sequence comparison and substring search.

use vstd::prelude::*;

verus! {

/// `pat` occurs as a contiguous run somewhere inside `buf`.
pub open spec fn occurs_in(pat: Seq<u8>, buf: Seq<u8>) -> bool {
    exists|k: int| 0 <= k && k + pat.len() <= buf.len() && #[trigger] buf.subrange(k, k + pat.len()) == pat
}

/// Whether the bytes of `buf` starting at `at` are exactly `pat`.
pub fn matches_at(buf: &[u8], pat: &[u8], at: usize) -> (r: bool)
    requires
        at + pat@.len() <= buf@.len(),
    ensures
        r == (buf@.subrange(at as int, at + pat@.len()) == pat@),
{
    let n = buf.len();
    let mut j: usize = 0;
    while j < pat.len()
        invariant
            at + pat@.len() <= buf@.len(),
            n == buf@.len(),
            j <= pat@.len(),
            forall|t: int| 0 <= t < j ==> buf@[at + t] == pat@[t],
        decreases pat@.len() - j,
    {
        if buf[at + j] != pat[j] {
            assert(buf@.subrange(at as int, at + pat@.len())[j as int] != pat@[j as int]);
            return false;
        }
        j += 1;
    }
    assert(buf@.subrange(at as int, at + pat@.len()) =~= pat@);
    true
}

/// Whether `a` and `b` hold the same bytes.
pub fn same_bytes(a: &[u8], b: &[u8]) -> (r: bool)
    ensures
        r == (a@ == b@),
{
    if a.len() != b.len() {
        return false;
    }
    let r = matches_at(a, b, 0);
    assert(a@.subrange(0, b@.len() as int) =~= a@);
    r
}

/// Whether `pat` occurs anywhere in `buf`.
pub fn occurs(pat: &[u8], buf: &[u8]) -> (r: bool)
    ensures
        r == occurs_in(pat@, buf@),
{
    if pat.len() > buf.len() {
        return false;
    }
    let last = buf.len() - pat.len();
    let mut i: usize = 0;
    while i <= last
        invariant
            last == buf@.len() - pat@.len(),
            i <= last + 1,
            forall|k: int| 0 <= k < i ==> #[trigger] buf@.subrange(k, k + pat@.len()) != pat@,
        decreases buf@.len() - i,
    {
        if matches_at(buf, pat, i) {
            return true;
        }
        if i == last {
            return false;
        }
        i += 1;
    }
    false
}

} // verus!
