//! Copying, comparing and joining sequences of bytes.

use vstd::prelude::*;
use vstd::string::StringSliceAdditionalSpecFns;

verus! {

/// The bytes of `p` from `from` up to, not including, `to`.
pub(crate) fn copy_range(p: &[u8], from: usize, to: usize) -> (out: Vec<u8>)
    requires
        from <= to <= p.len(),
    ensures
        out@ == p@.subrange(from as int, to as int),
{
    let mut out: Vec<u8> = Vec::new();
    let mut i: usize = from;
    while i < to
        invariant
            from <= i <= to <= p.len(),
            out@ == p@.subrange(from as int, i as int),
        decreases to - i,
    {
        out.push(p[i]);
        i = i + 1;
    }
    out
}

/// A copy of `p`.
pub fn copy(p: &[u8]) -> (out: Vec<u8>)
    ensures
        out@ == p@,
{
    copy_range(p, 0, p.len())
}

/// The bytes of `s`.
pub fn text(s: &str) -> (out: Vec<u8>)
    ensures
        out@ == s.spec_bytes(),
{
    copy(s.as_bytes())
}

/// `a` followed by `b`.
pub fn catenate(a: &[u8], b: &[u8]) -> (out: Vec<u8>)
    ensures
        out@ == a@ + b@,
{
    let mut out: Vec<u8> = copy(a);
    out.extend_from_slice(b);
    out
}

/// Whether `a` and `b` hold the same bytes.
pub fn same_bytes(a: &[u8], b: &[u8]) -> (eq: bool)
    ensures
        eq == (a@ == b@),
{
    if a.len() != b.len() {
        return false;
    }
    let mut i: usize = 0;
    while i < a.len()
        invariant
            a.len() == b.len(),
            i <= a.len(),
            forall|k: int| 0 <= k < i ==> a@[k] == b@[k],
        decreases a.len() - i,
    {
        if a[i] != b[i] {
            return false;
        }
        i = i + 1;
    }
    proof {
        assert(a@ =~= b@);
    }
    true
}

} // verus!
