//! Verified primitive readers over an untrusted byte buffer.
//!
//! Every multi-byte field of an object-file header is read through one of
//! these functions; each is proved to return exactly the integer described
//! by the corresponding spec function, for the requested byte order.

use vstd::prelude::*;
use vstd::slice::slice_index_get;

verus! {

/// Little-endian value of the two bytes of `s` starting at `i`.
pub open spec fn le16(s: Seq<u8>, i: int) -> int
    recommends
        0 <= i,
        i + 2 <= s.len(),
{
    s[i] + 0x100 * s[i + 1]
}

/// Big-endian value of the two bytes of `s` starting at `i`.
pub open spec fn be16(s: Seq<u8>, i: int) -> int
    recommends
        0 <= i,
        i + 2 <= s.len(),
{
    s[i + 1] + 0x100 * s[i]
}

/// Two-byte value at `i` in the byte order selected by `le`.
pub open spec fn word16(s: Seq<u8>, i: int, le: bool) -> int {
    if le {
        le16(s, i)
    } else {
        be16(s, i)
    }
}

/// Four-byte value at `i` in the byte order selected by `le`.
pub open spec fn word32(s: Seq<u8>, i: int, le: bool) -> int {
    if le {
        word16(s, i, le) + 0x10000 * word16(s, i + 2, le)
    } else {
        word16(s, i + 2, le) + 0x10000 * word16(s, i, le)
    }
}

/// Eight-byte value at `i` in the byte order selected by `le`.
pub open spec fn word64(s: Seq<u8>, i: int, le: bool) -> int {
    if le {
        word32(s, i, le) + 0x100000000 * word32(s, i + 4, le)
    } else {
        word32(s, i + 4, le) + 0x100000000 * word32(s, i, le)
    }
}

/// Read a two-byte field at `i` from `d` in the byte order selected by `le`.
pub fn read_u16(d: &[u8], i: usize, le: bool) -> (r: u16)
    requires
        i + 2 <= d@.len(),
    ensures
        r == word16(d@, i as int, le),
{
    let n = d.len();
    proof {
        assert(i + 2 <= n);
    }
    let b0 = *slice_index_get(d, i);
    let b1 = *slice_index_get(d, i + 1);
    if le {
        b0 as u16 + (b1 as u16) * 0x100
    } else {
        b1 as u16 + (b0 as u16) * 0x100
    }
}

/// Read a four-byte field at `i` from `d` in the byte order selected by `le`.
pub fn read_u32(d: &[u8], i: usize, le: bool) -> (r: u32)
    requires
        i + 4 <= d@.len(),
    ensures
        r == word32(d@, i as int, le),
{
    let n = d.len();
    proof {
        assert(i + 4 <= n);
    }
    let a = read_u16(d, i, le);
    let b = read_u16(d, i + 2, le);
    if le {
        a as u32 + (b as u32) * 0x10000
    } else {
        b as u32 + (a as u32) * 0x10000
    }
}

/// Read an eight-byte field at `i` from `d` in the byte order selected by `le`.
pub fn read_u64(d: &[u8], i: usize, le: bool) -> (r: u64)
    requires
        i + 8 <= d@.len(),
    ensures
        r == word64(d@, i as int, le),
{
    let n = d.len();
    proof {
        assert(i + 8 <= n);
    }
    let a = read_u32(d, i, le);
    let b = read_u32(d, i + 4, le);
    if le {
        a as u64 + (b as u64) * 0x100000000
    } else {
        b as u64 + (a as u64) * 0x100000000
    }
}

/// The bytes of a NUL-terminated name stored in `s[i .. end]`: everything up
/// to, and not including, the first NUL byte, or the whole range when no NUL
/// occurs in it. Out-of-range arguments give the empty name.
pub open spec fn cstr(s: Seq<u8>, i: int, end: int) -> Seq<u8>
    decreases end - i,
{
    if i < 0 || i >= end || end > s.len() {
        Seq::empty()
    } else if s[i] == 0 {
        Seq::empty()
    } else {
        seq![s[i]] + cstr(s, i + 1, end)
    }
}

/// Copy the NUL-terminated name stored in `d[start .. end]` out of the buffer.
pub fn read_cstr(d: &[u8], start: usize, end: usize) -> (r: Vec<u8>)
    requires
        start <= end,
        end <= d@.len(),
    ensures
        r@ == cstr(d@, start as int, end as int),
{
    let mut v: Vec<u8> = Vec::new();
    let mut j: usize = start;
    proof {
        assert(Seq::<u8>::empty() + cstr(d@, start as int, end as int) =~= cstr(
            d@,
            start as int,
            end as int,
        ));
    }
    loop
        invariant
            start <= j <= end,
            end <= d@.len(),
            cstr(d@, start as int, end as int) == v@ + cstr(d@, j as int, end as int),
        ensures
            v@ == cstr(d@, start as int, end as int),
        decreases end - j,
    {
        if j == end {
            proof {
                assert(cstr(d@, j as int, end as int) =~= Seq::<u8>::empty());
                assert(v@ + Seq::<u8>::empty() =~= v@);
            }
            break ;
        }
        let b = *slice_index_get(d, j);
        if b == 0 {
            proof {
                assert(cstr(d@, j as int, end as int) =~= Seq::<u8>::empty());
                assert(v@ + Seq::<u8>::empty() =~= v@);
            }
            break ;
        }
        proof {
            assert(cstr(d@, j as int, end as int) == seq![d@[j as int]] + cstr(
                d@,
                j as int + 1,
                end as int,
            ));
            assert(v@ + (seq![d@[j as int]] + cstr(d@, j as int + 1, end as int)) =~= (v@ + seq![
                d@[j as int],
            ]) + cstr(d@, j as int + 1, end as int));
            assert(v@.push(b) =~= v@ + seq![d@[j as int]]);
        }
        v.push(b);
        j = j + 1;
    }
    v
}

/// Compare two byte strings for equality of their contents.
pub fn bytes_eq(a: &[u8], b: &[u8]) -> (r: bool)
    ensures
        r == (a@ == b@),
{
    if a.len() != b.len() {
        proof {
            assert(a@.len() != b@.len());
        }
        return false;
    }
    let n = a.len();
    let mut j: usize = 0;
    loop
        invariant
            0 <= j <= n,
            n == a@.len(),
            n == b@.len(),
            forall|k: int| 0 <= k < j ==> a@[k] == b@[k],
        ensures
            j == n,
            forall|k: int| 0 <= k < n ==> a@[k] == b@[k],
        decreases n - j,
    {
        if j == n {
            break ;
        }
        let x = *slice_index_get(a, j);
        let y = *slice_index_get(b, j);
        if x != y {
            proof {
                assert(a@[j as int] != b@[j as int]);
            }
            return false;
        }
        j = j + 1;
    }
    proof {
        assert(a@ =~= b@);
    }
    true
}

} // verus!
