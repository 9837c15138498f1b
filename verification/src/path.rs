//! Paths of archive entries, as bytes.
//!
//! A path is a sequence of bytes in which `/` separates components. Empty
//! components and `.` components carry no meaning and are skipped, except for
//! a `.` that is the whole first component of a relative path. A path that
//! begins with `/` is absolute.

use crate::bytes::copy_range;
use vstd::prelude::*;

verus! {

/// The byte `/`, which separates the components of a path.
pub const SEPARATOR: u8 = 47;

/// The byte `.`.
pub const DOT: u8 = 46;

/// Whether the last byte of `p` belongs to a component that is skipped: a
/// separator that follows something, or a `.` that directly follows a
/// separator.
pub open spec fn ends_blank(p: Seq<u8>) -> bool {
    p.len() >= 2 && (p.last() == SEPARATOR || (p.last() == DOT && p[p.len() - 2] == SEPARATOR))
}

/// `p` without the separators and `.` components that end it. A `/` that is
/// the root of the path, and a `.` that is the whole path, stay.
pub open spec fn trimmed(p: Seq<u8>) -> Seq<u8>
    decreases p.len(),
{
    if ends_blank(p) {
        trimmed(p.drop_last())
    } else {
        p
    }
}

/// The index at which the last component of `p` begins: just after the last
/// separator, or 0 where `p` holds none.
pub open spec fn name_start(p: Seq<u8>) -> int
    decreases p.len(),
{
    if p.len() == 0 {
        0
    } else if p.last() == SEPARATOR {
        p.len() as int
    } else {
        name_start(p.drop_last())
    }
}

/// The last component of `p`, blank components skipped. It may be empty (the
/// path is empty or is the root), `.` or `..`.
pub open spec fn last_component(p: Seq<u8>) -> Seq<u8> {
    trimmed(p).skip(name_start(trimmed(p)))
}

/// Whether `name` can be the name of a file: not empty, not `.`, not `..`.
pub open spec fn is_normal(name: Seq<u8>) -> bool {
    &&& name.len() > 0
    &&& name != seq![DOT]
    &&& name != seq![DOT, DOT]
}

/// The name of the file or directory that `p` ends in, if it ends in one.
pub open spec fn file_name(p: Seq<u8>) -> Option<Seq<u8>> {
    if is_normal(last_component(p)) {
        Some(last_component(p))
    } else {
        None
    }
}

/// The path of the directory that holds the last component of `p`: `p`
/// without that component and without the blank components before it. There
/// is none where `p` is empty or ends in the root.
pub open spec fn parent(p: Seq<u8>) -> Option<Seq<u8>> {
    if last_component(p).len() == 0 {
        None
    } else {
        Some(trimmed(trimmed(p).take(name_start(trimmed(p)))))
    }
}

/// Whether `p` begins at the root.
pub open spec fn is_absolute(p: Seq<u8>) -> bool {
    p.len() > 0 && p[0] == SEPARATOR
}

/// `base` as it stands before what lies in it: with a separator added where
/// `base` is not empty and does not end in one.
pub open spec fn dir_prefix(base: Seq<u8>) -> Seq<u8> {
    if base.len() > 0 && base.last() != SEPARATOR {
        base.push(SEPARATOR)
    } else {
        base
    }
}

/// `rel` resolved against `base`: `rel` itself where it is absolute;
/// otherwise `base` followed by `rel`, with one separator between them where
/// `base` is not empty and does not end in one.
pub open spec fn join(base: Seq<u8>, rel: Seq<u8>) -> Seq<u8> {
    if is_absolute(rel) {
        rel
    } else {
        dir_prefix(base) + rel
    }
}

/// `trimmed(p)` is a prefix of `p`, ends in no blank component, and is empty
/// only where `p` is.
pub proof fn lemma_trimmed(p: Seq<u8>)
    ensures
        trimmed(p).len() <= p.len(),
        trimmed(p) == p.take(trimmed(p).len() as int),
        !ends_blank(trimmed(p)),
        trimmed(trimmed(p)) == trimmed(p),
        trimmed(p).len() == 0 <==> p.len() == 0,
    decreases p.len(),
{
    if ends_blank(p) {
        lemma_trimmed(p.drop_last());
    }
}

/// `name_start(p)` is the one index from which on `p` holds no separator and
/// before which, unless it is 0, a separator stands.
pub proof fn lemma_name_start(p: Seq<u8>)
    ensures
        0 <= name_start(p) <= p.len(),
        name_start(p) > 0 ==> p[name_start(p) - 1] == SEPARATOR,
        forall|i: int| name_start(p) <= i < p.len() ==> p[i] != SEPARATOR,
    decreases p.len(),
{
    if p.len() > 0 && p.last() != SEPARATOR {
        let q = p.drop_last();
        lemma_name_start(q);
        assert forall|i: int| name_start(p) <= i < p.len() implies p[i] != SEPARATOR by {
            if i < q.len() {
                assert(q[i] == p[i]);
            }
        }
    }
}

/// An index from which on `p` holds no separator, and before which, unless
/// it is 0, a separator stands, is `name_start(p)`.
pub proof fn lemma_name_start_unique(p: Seq<u8>, s: int)
    requires
        0 <= s <= p.len(),
        s > 0 ==> p[s - 1] == SEPARATOR,
        forall|i: int| s <= i < p.len() ==> p[i] != SEPARATOR,
    ensures
        name_start(p) == s,
{
    lemma_name_start(p);
}

/// Whether `name` can be one component of a path that names a file: it is
/// normal and holds no separator.
pub open spec fn is_plain_name(name: Seq<u8>) -> bool {
    is_normal(name) && forall|i: int| 0 <= i < name.len() ==> name[i] != SEPARATOR
}

/// What is blank at the end of `b` is blank at the end of `a + b` too.
pub proof fn lemma_trimmed_absorbs(a: Seq<u8>, b: Seq<u8>)
    ensures
        trimmed(a + b) == trimmed(a + trimmed(b)),
    decreases b.len(),
{
    if ends_blank(b) {
        assert((a + b).drop_last() =~= a + b.drop_last());
        lemma_trimmed_absorbs(a, b.drop_last());
    }
}

/// A path that is `front`, then the plain name `name`, where `front` is
/// empty or ends in a separator: it ends in no blank component, its file name
/// is `name`, and its parent is `front` trimmed.
pub proof fn lemma_name_after_front(front: Seq<u8>, name: Seq<u8>)
    requires
        is_plain_name(name),
        front.len() == 0 || front.last() == SEPARATOR,
    ensures
        trimmed(front + name) == front + name,
        name_start(front + name) == front.len(),
        file_name(front + name) == Some(name),
        parent(front + name) == Some(trimmed(front)),
{
    let p = front + name;
    if name.len() == 1 {
        assert(name =~= seq![name[0]]);
    }
    lemma_name_start_unique(p, front.len() as int);
    assert(p.skip(front.len() as int) =~= name);
    assert(p.take(front.len() as int) =~= front);
}

/// The length of `trimmed(p)`.
pub fn trimmed_len(p: &[u8]) -> (n: usize)
    ensures
        n <= p.len(),
        p@.take(n as int) == trimmed(p@),
{
    let mut n: usize = p.len();
    proof {
        assert(p@.take(n as int) =~= p@);
    }
    while n >= 2 && (p[n - 1] == SEPARATOR || (p[n - 1] == DOT && p[n - 2] == SEPARATOR))
        invariant
            n <= p.len(),
            trimmed(p@.take(n as int)) == trimmed(p@),
        decreases n,
    {
        proof {
            assert(p@.take(n as int).drop_last() =~= p@.take(n - 1));
        }
        n = n - 1;
    }
    n
}

/// The index at which the last component of the first `n` bytes of `p`
/// begins.
pub(crate) fn name_start_within(p: &[u8], n: usize) -> (s: usize)
    requires
        n <= p.len(),
    ensures
        s <= n,
        s == name_start(p@.take(n as int)),
{
    let mut s: usize = n;
    while s > 0 && p[s - 1] != SEPARATOR
        invariant
            s <= n <= p.len(),
            forall|i: int| s <= i < n ==> p@[i] != SEPARATOR,
        decreases s,
    {
        s = s - 1;
    }
    proof {
        lemma_name_start_unique(p@.take(n as int), s as int);
    }
    s
}

/// The name of the file or directory that `p` ends in; `None` where `p` is
/// empty or ends in the root, in `.` or in `..`.
pub fn file_name_of(p: &[u8]) -> (out: Option<Vec<u8>>)
    ensures
        out is Some <==> file_name(p@) is Some,
        out is Some ==> out->0@ == file_name(p@)->0,
{
    let n = trimmed_len(p);
    let s = name_start_within(p, n);
    proof {
        assert(p@.take(n as int).skip(s as int) =~= p@.subrange(s as int, n as int));
    }
    let name = copy_range(p, s, n);
    let blank = name.len() == 0 || (name.len() == 1 && name[0] == DOT) || (name.len() == 2
        && name[0] == DOT && name[1] == DOT);
    proof {
        if name.len() == 1 && name[0] == DOT {
            assert(name@ =~= seq![DOT]);
        }
        if name.len() == 2 && name[0] == DOT && name[1] == DOT {
            assert(name@ =~= seq![DOT, DOT]);
        }
    }
    if blank {
        None
    } else {
        Some(name)
    }
}

/// The path of the directory that holds the last component of `p`; `None`
/// where `p` is empty or ends in the root.
pub fn parent_of(p: &[u8]) -> (out: Option<Vec<u8>>)
    ensures
        out is Some <==> parent(p@) is Some,
        out is Some ==> out->0@ == parent(p@)->0,
{
    let n = trimmed_len(p);
    let s = name_start_within(p, n);
    if s == n {
        return None;
    }
    let head = copy_range(p, 0, s);
    let m = trimmed_len(head.as_slice());
    proof {
        assert(p@.subrange(0, s as int) =~= p@.take(n as int).take(s as int));
    }
    Some(copy_range(head.as_slice(), 0, m))
}

/// `rel` resolved against `base`.
pub fn join_paths(base: &[u8], rel: &[u8]) -> (out: Vec<u8>)
    ensures
        out@ == join(base@, rel@),
{
    let mut out: Vec<u8> = Vec::new();
    if rel.len() > 0 && rel[0] == SEPARATOR {
        out.extend_from_slice(rel);
    } else {
        out.extend_from_slice(base);
        if base.len() > 0 && base[base.len() - 1] != SEPARATOR {
            out.push(SEPARATOR);
        }
        out.extend_from_slice(rel);
    }
    out
}

} // verus!
