//! Byte-sequence helpers for the names carried by the QIR model, and plain
//! copies of the small vectors the model hands around.
//!
//! LLVM symbol, struct and block names are C strings, so the model stores
//! them as byte vectors and all name matching is done over bytes.

use vstd::prelude::*;
use vstd::string::StringSliceAdditionalSpecFns;

verus! {

/// `s` starts with `prefix`.
pub open spec fn starts_with(s: Seq<u8>, prefix: Seq<u8>) -> bool {
    s.len() >= prefix.len() && s.subrange(0, prefix.len() as int) == prefix
}

/// `s` ends with `suffix`.
pub open spec fn ends_with(s: Seq<u8>, suffix: Seq<u8>) -> bool {
    s.len() >= suffix.len() && s.subrange(s.len() - suffix.len(), s.len() as int) == suffix
}

/// Compare two byte slices for equality.
pub fn bytes_eq(a: &[u8], b: &[u8]) -> (r: bool)
    ensures
        r == (a@ == b@),
{
    if a.len() != b.len() {
        assert(a@.len() != b@.len());
        return false;
    }
    let mut i: usize = 0;
    while i < a.len()
        invariant
            i <= a.len(),
            a.len() == b.len(),
            forall|j: int| 0 <= j < i ==> a@[j] == b@[j],
        decreases a.len() - i,
    {
        if a[i] != b[i] {
            return false;
        }
        i += 1;
    }
    proof {
        assert(a@ =~= b@);
    }
    true
}

/// Compare a byte slice against the bytes of a string slice.
pub fn bytes_eq_str(a: &[u8], s: &str) -> (r: bool)
    ensures
        r == (a@ == s.spec_bytes()),
{
    bytes_eq(a, s.as_bytes())
}

/// Does `a` start with the bytes of `prefix`?
pub fn starts_with_str(a: &[u8], prefix: &str) -> (r: bool)
    ensures
        r == starts_with(a@, prefix.spec_bytes()),
{
    let p = prefix.as_bytes();
    if a.len() < p.len() {
        return false;
    }
    let mut i: usize = 0;
    while i < p.len()
        invariant
            i <= p.len(),
            p.len() <= a.len(),
            p@ == prefix.spec_bytes(),
            forall|j: int| 0 <= j < i ==> a@[j] == p@[j],
        decreases p.len() - i,
    {
        if a[i] != p[i] {
            assert(a@.subrange(0, p@.len() as int)[i as int] != p@[i as int]);
            return false;
        }
        i += 1;
    }
    proof {
        assert(a@.subrange(0, p@.len() as int) =~= p@);
    }
    true
}

/// Does `a` end with the bytes of `suffix`?
pub fn ends_with_str(a: &[u8], suffix: &str) -> (r: bool)
    ensures
        r == ends_with(a@, suffix.spec_bytes()),
{
    let p = suffix.as_bytes();
    if a.len() < p.len() {
        return false;
    }
    let start = a.len() - p.len();
    let mut i: usize = 0;
    while i < p.len()
        invariant
            i <= p.len(),
            p.len() <= a.len(),
            start == a.len() - p.len(),
            p@ == suffix.spec_bytes(),
            forall|j: int| 0 <= j < i ==> a@[start + j] == p@[j],
        decreases p.len() - i,
    {
        if a[start + i] != p[i] {
            assert(a@.subrange(a@.len() - p@.len(), a@.len() as int)[i as int] != p@[i as int]);
            return false;
        }
        i += 1;
    }
    proof {
        assert(a@.subrange(a@.len() - p@.len(), a@.len() as int) =~= p@);
    }
    true
}

/// Copy a byte vector.
pub fn clone_bytes(a: &Vec<u8>) -> (r: Vec<u8>)
    ensures
        r@ == a@,
{
    let r = bytes_subrange(a.as_slice(), 0, a.len());
    proof {
        assert(r@ =~= a@);
    }
    r
}

/// Copy a vector of integers.
pub fn clone_u64s(a: &Vec<u64>) -> (r: Vec<u64>)
    ensures
        r@ == a@,
{
    let mut r: Vec<u64> = Vec::new();
    let mut i: usize = 0;
    while i < a.len()
        invariant
            i <= a@.len(),
            r@ == a@.take(i as int),
        decreases a@.len() - i,
    {
        r.push(a[i]);
        proof {
            assert(r@ =~= a@.take(i + 1));
        }
        i += 1;
    }
    proof {
        assert(a@.take(a@.len() as int) =~= a@);
    }
    r
}

/// Copy a vector of integer pairs.
pub fn clone_u64_pairs(a: &Vec<(u64, u64)>) -> (r: Vec<(u64, u64)>)
    ensures
        r@ == a@,
{
    let mut r: Vec<(u64, u64)> = Vec::new();
    let mut i: usize = 0;
    while i < a.len()
        invariant
            i <= a@.len(),
            r@ == a@.take(i as int),
        decreases a@.len() - i,
    {
        r.push(a[i]);
        proof {
            assert(r@ =~= a@.take(i + 1));
        }
        i += 1;
    }
    proof {
        assert(a@.take(a@.len() as int) =~= a@);
    }
    r
}

/// Copy a sub-range of a byte slice into a fresh vector.
pub fn bytes_subrange(a: &[u8], from: usize, to: usize) -> (r: Vec<u8>)
    requires
        from <= to <= a@.len(),
    ensures
        r@ == a@.subrange(from as int, to as int),
{
    let mut r: Vec<u8> = Vec::new();
    let mut i: usize = from;
    while i < to
        invariant
            from <= i <= to <= a@.len(),
            r@ == a@.subrange(from as int, i as int),
        decreases to - i,
    {
        r.push(a[i]);
        proof {
            assert(r@ =~= a@.subrange(from as int, i + 1 as int));
        }
        i += 1;
    }
    r
}

} // verus!
