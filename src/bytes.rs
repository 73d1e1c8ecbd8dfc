//! Little-endian fixed-width integers in byte sequences.
//!
//! Every on-disk record and every datagram of this crate is laid out with
//! these helpers, so the layout does not depend on the platform's struct
//! layout or byte order.
use vstd::prelude::*;

verus! {

/// The four bytes of `v`, least significant first.
pub open spec fn u32_le(v: u32) -> Seq<u8> {
    seq![v as u8, (v >> 8u32) as u8, (v >> 16u32) as u8, (v >> 24u32) as u8]
}

/// The eight bytes of `v`, least significant first.
pub open spec fn u64_le(v: u64) -> Seq<u8> {
    u32_le(v as u32) + u32_le((v >> 32u64) as u32)
}

/// The `u32` stored little-endian at `s[off..off + 4]`.
pub open spec fn u32_at(s: Seq<u8>, off: int) -> u32 {
    (s[off] as u32) | ((s[off + 1] as u32) << 8u32) | ((s[off + 2] as u32) << 16u32) | ((
    s[off + 3] as u32) << 24u32)
}

/// The `u64` stored little-endian at `s[off..off + 8]`.
pub open spec fn u64_at(s: Seq<u8>, off: int) -> u64 {
    (u32_at(s, off) as u64) | ((u32_at(s, off + 4) as u64) << 32u64)
}

/// `n` zero bytes.
pub open spec fn zeros(n: nat) -> Seq<u8> {
    Seq::new(n, |i: int| 0u8)
}

/// `s` with `piece` written over it from `off` on.
#[verifier::opaque]
pub open spec fn overwrite(s: Seq<u8>, off: int, piece: Seq<u8>) -> Seq<u8> {
    Seq::new(
        s.len(),
        |i: int|
            if off <= i < off + piece.len() {
                piece[i - off]
            } else {
                s[i]
            },
    )
}

proof fn lemma_u32_bytes(v: u32, b0: u8, b1: u8, b2: u8, b3: u8)
    requires
        b0 == v as u8,
        b1 == (v >> 8u32) as u8,
        b2 == (v >> 16u32) as u8,
        b3 == (v >> 24u32) as u8,
    ensures
        (b0 as u32) | ((b1 as u32) << 8u32) | ((b2 as u32) << 16u32) | ((b3 as u32) << 24u32)
            == v,
{
    assert((b0 as u32) | ((b1 as u32) << 8u32) | ((b2 as u32) << 16u32) | ((b3 as u32) << 24u32)
        == v) by (bit_vector)
        requires
            b0 == v as u8,
            b1 == (v >> 8u32) as u8,
            b2 == (v >> 16u32) as u8,
            b3 == (v >> 24u32) as u8,
    ;
}

proof fn lemma_u64_halves(v: u64, lo: u32, hi: u32)
    requires
        lo == v as u32,
        hi == (v >> 32u64) as u32,
    ensures
        (lo as u64) | ((hi as u64) << 32u64) == v,
{
    assert((lo as u64) | ((hi as u64) << 32u64) == v) by (bit_vector)
        requires
            lo == v as u32,
            hi == (v >> 32u64) as u32,
    ;
}

/// Reading back four bytes written by `u32_le` gives the value.
pub proof fn lemma_u32_round_trip(s: Seq<u8>, off: int, v: u32)
    requires
        0 <= off,
        off + 4 <= s.len(),
        s.subrange(off, off + 4) == u32_le(v),
    ensures
        u32_at(s, off) == v,
{
    assert(s[off] == s.subrange(off, off + 4)[0]);
    assert(s[off + 1] == s.subrange(off, off + 4)[1]);
    assert(s[off + 2] == s.subrange(off, off + 4)[2]);
    assert(s[off + 3] == s.subrange(off, off + 4)[3]);
    lemma_u32_bytes(v, s[off], s[off + 1], s[off + 2], s[off + 3]);
}

/// Reading back eight bytes written by `u64_le` gives the value.
pub proof fn lemma_u64_round_trip(s: Seq<u8>, off: int, v: u64)
    requires
        0 <= off,
        off + 8 <= s.len(),
        s.subrange(off, off + 8) == u64_le(v),
    ensures
        u64_at(s, off) == v,
{
    assert(s.subrange(off, off + 4) =~= s.subrange(off, off + 8).subrange(0, 4));
    assert(s.subrange(off + 4, off + 8) =~= s.subrange(off, off + 8).subrange(4, 8));
    assert(u64_le(v).subrange(0, 4) =~= u32_le(v as u32));
    assert(u64_le(v).subrange(4, 8) =~= u32_le((v >> 32u64) as u32));
    lemma_u32_round_trip(s, off, v as u32);
    lemma_u32_round_trip(s, off + 4, (v >> 32u64) as u32);
    lemma_u64_halves(v, v as u32, (v >> 32u64) as u32);
}

/// Appends the four little-endian bytes of `v`.
pub fn push_u32(out: &mut Vec<u8>, v: u32)
    ensures
        final(out)@ == old(out)@ + u32_le(v),
{
    out.push(v as u8);
    out.push((v >> 8u32) as u8);
    out.push((v >> 16u32) as u8);
    out.push((v >> 24u32) as u8);
    assert(out@ =~= old(out)@ + u32_le(v));
}

/// Appends the eight little-endian bytes of `v`.
pub fn push_u64(out: &mut Vec<u8>, v: u64)
    ensures
        final(out)@ == old(out)@ + u64_le(v),
{
    push_u32(out, v as u32);
    push_u32(out, (v >> 32u64) as u32);
    assert(out@ =~= old(out)@ + u64_le(v));
}

/// Appends `n` zero bytes.
pub fn push_zeros(out: &mut Vec<u8>, n: usize)
    ensures
        final(out)@ == old(out)@ + zeros(n as nat),
{
    let mut i: usize = 0;
    while i < n
        invariant
            i <= n,
            out@ == old(out)@ + zeros(i as nat),
        decreases n - i,
    {
        out.push(0u8);
        i += 1;
        assert(out@ =~= old(out)@ + zeros(i as nat));
    }
}

/// The `u32` stored little-endian at `s[off..off + 4]`.
pub fn read_u32(s: &[u8], off: usize) -> (r: u32)
    requires
        off + 4 <= s@.len(),
    ensures
        r == u32_at(s@, off as int),
{
    (s[off] as u32) | ((s[off + 1] as u32) << 8u32) | ((s[off + 2] as u32) << 16u32) | ((s[off
        + 3] as u32) << 24u32)
}

/// The `u64` stored little-endian at `s[off..off + 8]`.
pub fn read_u64(s: &[u8], off: usize) -> (r: u64)
    requires
        off + 8 <= s@.len(),
    ensures
        r == u64_at(s@, off as int),
{
    // the slice's length is a usize, which keeps the offsets below from overflowing
    let _len = s.len();
    (read_u32(s, off) as u64) | ((read_u32(s, off + 4) as u64) << 32u64)
}

/// Copies `piece` into `s` from `off` on.
pub fn write_at(s: &mut [u8], off: usize, piece: &[u8])
    requires
        off + piece@.len() <= old(s)@.len(),
    ensures
        final(s)@ == overwrite(old(s)@, off as int, piece@),
{
    let len = s.len();
    proof {
        reveal(overwrite);
        assert(overwrite(old(s)@, off as int, piece@.subrange(0, 0)) =~= old(s)@);
    }
    let mut i: usize = 0;
    while i < piece.len()
        invariant
            len == s@.len(),
            off + piece@.len() <= s@.len(),
            s@.len() == old(s)@.len(),
            i <= piece@.len(),
            s@ == overwrite(old(s)@, off as int, piece@.subrange(0, i as int)),
        decreases piece@.len() - i,
    {
        proof {
            reveal(overwrite);
        }
        s[off + i] = piece[i];
        i += 1;
        assert(s@ =~= overwrite(old(s)@, off as int, piece@.subrange(0, i as int)));
    }
    assert(piece@.subrange(0, i as int) =~= piece@);
}

/// What `overwrite` leaves in place and what it writes.
pub proof fn lemma_overwrite(s: Seq<u8>, off: int, piece: Seq<u8>)
    ensures
        overwrite(s, off, piece).len() == s.len(),
        forall|i: int|
            0 <= i < s.len() && !(off <= i < off + piece.len()) ==> #[trigger] overwrite(
                s,
                off,
                piece,
            )[i] == s[i],
        forall|i: int|
            0 <= i < s.len() && off <= i < off + piece.len() ==> #[trigger] overwrite(
                s,
                off,
                piece,
            )[i] == piece[i - off],
{
    reveal(overwrite);
}

} // verus!
