use vstd::bytes::*;
use vstd::prelude::*;
use vstd::slice::slice_subrange;

verus! {

/// `d` with the bytes of `s` written over it from offset `at` on.
pub open spec fn splice(d: Seq<u8>, at: int, s: Seq<u8>) -> Seq<u8> {
    d.subrange(0, at) + s + d.subrange(at + s.len(), d.len() as int)
}

/// The little-endian `u64` held in the eight bytes of `b` from offset `at`.
pub open spec fn u64_at(b: Seq<u8>, at: int) -> u64 {
    spec_u64_from_le_bytes(b.subrange(at, at + 8))
}

/// The little-endian `u32` held in the four bytes of `b` from offset `at`.
pub open spec fn u32_at(b: Seq<u8>, at: int) -> u32 {
    spec_u32_from_le_bytes(b.subrange(at, at + 4))
}

/// A stored flag: the byte 1 is true, every other byte is false.
pub open spec fn flag_of(b: u8) -> bool {
    b == 1
}

pub open spec fn flag_byte(f: bool) -> u8 {
    if f {
        1
    } else {
        0
    }
}

pub fn read_u64(b: &[u8], at: usize) -> (r: u64)
    requires
        at + 8 <= b@.len(),
    ensures
        r == u64_at(b@, at as int),
{
    assert(b@.len() == b.len());
    u64_from_le_bytes(slice_subrange(b, at, at + 8))
}

pub fn read_u32(b: &[u8], at: usize) -> (r: u32)
    requires
        at + 4 <= b@.len(),
    ensures
        r == u32_at(b@, at as int),
{
    assert(b@.len() == b.len());
    u32_from_le_bytes(slice_subrange(b, at, at + 4))
}

pub fn read_array32(b: &[u8], at: usize) -> (r: [u8; 32])
    requires
        at + 32 <= b@.len(),
    ensures
        r@ == b@.subrange(at as int, at + 32),
{
    let n = b.len();
    let mut out = [0u8; 32];
    let mut i: usize = 0;
    while i < 32
        invariant
            0 <= i <= 32,
            at + 32 <= b@.len(),
            n == b@.len(),
            out@.len() == 32,
            forall|j: int| 0 <= j < i ==> out@[j] == b@[at + j],
        decreases 32 - i,
    {
        out[i] = b[at + i];
        i = i + 1;
    }
    assert(out@ =~= b@.subrange(at as int, at + 32));
    out
}

/// Appends the bytes of `s` to `buf`.
pub fn push_all(buf: &mut Vec<u8>, s: &[u8])
    ensures
        final(buf)@ == old(buf)@ + s@,
{
    let mut i: usize = 0;
    while i < s.len()
        invariant
            0 <= i <= s@.len(),
            buf@ == old(buf)@ + s@.subrange(0, i as int),
        decreases s@.len() - i,
    {
        buf.push(s[i]);
        i = i + 1;
        assert(buf@ =~= old(buf)@ + s@.subrange(0, i as int));
    }
    assert(s@.subrange(0, s@.len() as int) =~= s@);
}

/// Writes the bytes of `s` over `d` from offset `at` on.
pub fn write_at(d: &mut Vec<u8>, at: usize, s: &[u8])
    requires
        at + s@.len() <= old(d)@.len(),
    ensures
        final(d)@ == splice(old(d)@, at as int, s@),
        final(d)@.len() == old(d)@.len(),
{
    let n = d.len();
    let mut i: usize = 0;
    while i < s.len()
        invariant
            0 <= i <= s@.len(),
            at + s@.len() <= old(d)@.len(),
            n == old(d)@.len(),
            d@ == splice(old(d)@, at as int, s@.subrange(0, i as int)),
        decreases s@.len() - i,
    {
        d.set(at + i, s[i]);
        i = i + 1;
        assert(d@ =~= splice(old(d)@, at as int, s@.subrange(0, i as int)));
    }
    assert(s@.subrange(0, s@.len() as int) =~= s@);
}

} // verus!
