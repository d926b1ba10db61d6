//! Little-endian integer decoding over byte slices.
//!
//! Every multi-byte field of an MFT record is little-endian. The spec
//! functions here give the mathematical value of a byte sequence, and the
//! executable readers are proved to return exactly that value.

use vstd::prelude::*;

verus! {

/// The unsigned value of a little-endian byte sequence, least significant
/// byte first.
pub open spec fn le_val(s: Seq<u8>) -> int
    decreases s.len(),
{
    if s.len() == 0 {
        0
    } else {
        s[0] + 256 * le_val(s.skip(1))
    }
}

/// 256 to the given power: the number of distinct values of an `n`-byte field.
pub open spec fn pow256(n: nat) -> int
    decreases n,
{
    if n == 0 {
        1
    } else {
        256 * pow256((n - 1) as nat)
    }
}

/// The signed (two's-complement) value of a little-endian byte sequence of
/// width `8 * s.len()` bits.
pub open spec fn le_val_signed(s: Seq<u8>) -> int {
    if s.len() > 0 && s[s.len() - 1] >= 0x80 {
        le_val(s) - pow256(s.len())
    } else {
        le_val(s)
    }
}

/// The concrete values of `pow256` up to eight bytes.
pub proof fn lemma_pow256_values()
    ensures
        pow256(0) == 1,
        pow256(1) == 0x100,
        pow256(2) == 0x1_0000,
        pow256(3) == 0x100_0000,
        pow256(4) == 0x1_0000_0000,
        pow256(5) == 0x100_0000_0000,
        pow256(6) == 0x1_0000_0000_0000,
        pow256(7) == 0x100_0000_0000_0000,
        pow256(8) == 0x1_0000_0000_0000_0000,
{
    assert(pow256(0) == 1);
    assert(pow256(1) == 0x100);
    assert(pow256(2) == 0x1_0000);
    assert(pow256(3) == 0x100_0000);
    assert(pow256(4) == 0x1_0000_0000);
    assert(pow256(5) == 0x100_0000_0000);
    assert(pow256(6) == 0x1_0000_0000_0000);
    assert(pow256(7) == 0x100_0000_0000_0000);
    assert(pow256(8) == 0x1_0000_0000_0000_0000);
}

/// A byte sequence's value is bounded by the width of the field.
pub proof fn lemma_le_val_bound(s: Seq<u8>)
    ensures
        0 <= le_val(s) < pow256(s.len()),
    decreases s.len(),
{
    if s.len() > 0 {
        lemma_le_val_bound(s.skip(1));
    }
}

/// The most significant byte bounds the value from both sides.
pub proof fn lemma_le_val_top_byte(s: Seq<u8>)
    requires
        s.len() > 0,
    ensures
        s[s.len() - 1] * pow256((s.len() - 1) as nat) <= le_val(s),
        le_val(s) < (s[s.len() - 1] + 1) * pow256((s.len() - 1) as nat),
    decreases s.len(),
{
    let m = (s.len() - 1) as nat;
    let b = s[s.len() - 1] as int;
    if s.len() == 1 {
        assert(s.skip(1).len() == 0);
        assert(le_val(s) == s[0] + 256 * le_val(s.skip(1)));
        assert(pow256(0) == 1);
        assert(b * 1 == b) by (nonlinear_arith);
        assert((b + 1) * 1 == b + 1) by (nonlinear_arith);
    } else {
        let t = s.skip(1);
        lemma_le_val_top_byte(t);
        lemma_le_val_bound(t);
        let k = (s.len() - 2) as nat;
        assert(t[t.len() - 1] == s[s.len() - 1]);
        assert(b * pow256(k) <= le_val(t) < (b + 1) * pow256(k));
        assert(pow256(m) == 256 * pow256(k));
        assert(256 * (b * pow256(k)) == b * pow256(m)) by (nonlinear_arith)
            requires
                pow256(m) == 256 * pow256(k),
        ;
        assert(256 * ((b + 1) * pow256(k)) == (b + 1) * pow256(m)) by (nonlinear_arith)
            requires
                pow256(m) == 256 * pow256(k),
        ;
        assert(256 * (b * pow256(k)) <= 256 * le_val(t));
        assert(256 * le_val(t) <= 256 * ((b + 1) * pow256(k) - 1));
        assert(le_val(s) == s[0] + 256 * le_val(t));
        assert(b * pow256(m) <= le_val(s));
        assert(le_val(s) <= 255 + (b + 1) * pow256(m) - 256);
    }
}

/// Reads `n` little-endian bytes at `off` as an unsigned integer.
pub fn read_le_uint(buf: &[u8], off: usize, n: usize) -> (r: u64)
    requires
        n <= 8,
        off + n <= buf@.len(),
    ensures
        r == le_val(buf@.subrange(off as int, off + n)),
{
    proof {
        lemma_pow256_values();
    }
    let blen: usize = buf.len();
    let mut r: u64 = 0;
    let mut i: usize = n;
    while i > 0
        invariant
            n <= 8,
            off + n <= blen == buf@.len(),
            i <= n,
            r == le_val(buf@.subrange(off + i, off + n)),
            r < pow256((n - i) as nat),
            pow256(8) == 0x1_0000_0000_0000_0000,
        decreases i,
    {
        proof {
            lemma_pow256_values();
            lemma_le_val_bound(buf@.subrange(off + i - 1, off + n));
            assert(buf@.subrange(off + i - 1, off + n).skip(1) =~= buf@.subrange(
                off + i,
                off + n,
            ));
        }
        i = i - 1;
        r = (buf[off + i] as u64) + 256 * r;
    }
    proof {
        assert(buf@.subrange(off as int, off + n) =~= buf@.subrange(off + 0, off + n));
    }
    r
}

/// Reads a little-endian `u16` at `off`.
pub fn read_u16(buf: &[u8], off: usize) -> (r: u16)
    requires
        off + 2 <= buf@.len(),
    ensures
        r == le_val(buf@.subrange(off as int, off + 2)),
{
    let v = read_le_uint(buf, off, 2);
    proof {
        lemma_pow256_values();
        lemma_le_val_bound(buf@.subrange(off as int, off + 2));
    }
    v as u16
}

/// Reads a little-endian `u32` at `off`.
pub fn read_u32(buf: &[u8], off: usize) -> (r: u32)
    requires
        off + 4 <= buf@.len(),
    ensures
        r == le_val(buf@.subrange(off as int, off + 4)),
{
    let v = read_le_uint(buf, off, 4);
    proof {
        lemma_pow256_values();
        lemma_le_val_bound(buf@.subrange(off as int, off + 4));
    }
    v as u32
}

/// Reads a little-endian `u64` at `off`.
pub fn read_u64(buf: &[u8], off: usize) -> (r: u64)
    requires
        off + 8 <= buf@.len(),
    ensures
        r == le_val(buf@.subrange(off as int, off + 8)),
{
    read_le_uint(buf, off, 8)
}

/// 256 to the given power as a machine integer, for widths below eight bytes.
fn pow256_u64(n: usize) -> (r: u64)
    requires
        n <= 7,
    ensures
        r == pow256(n as nat),
{
    proof {
        lemma_pow256_values();
    }
    match n {
        0 => 1,
        1 => 0x100,
        2 => 0x1_0000,
        3 => 0x100_0000,
        4 => 0x1_0000_0000,
        5 => 0x100_0000_0000,
        6 => 0x1_0000_0000_0000,
        _ => 0x100_0000_0000_0000,
    }
}

/// Reads `n` little-endian bytes at `off` as a signed (two's-complement)
/// integer, sign-extended to 64 bits.
pub fn read_le_int(buf: &[u8], off: usize, n: usize) -> (r: i64)
    requires
        1 <= n <= 8,
        off + n <= buf@.len(),
    ensures
        r == le_val_signed(buf@.subrange(off as int, off + n)),
{
    let ghost s = buf@.subrange(off as int, off + n);
    let blen: usize = buf.len();
    let v = read_le_uint(buf, off, n);
    let top = buf[off + n - 1];
    proof {
        lemma_pow256_values();
        lemma_le_val_bound(s);
        lemma_le_val_top_byte(s);
        assert(s[s.len() - 1] == buf@[off + n - 1]);
    }
    if top >= 0x80 {
        if n == 8 {
            // The value occupies the full 64 bits: reinterpret it below zero.
            proof {
                assert(0x80 * pow256(7) == 0x8000_0000_0000_0000) by (nonlinear_arith)
                    requires
                        pow256(7) == 0x100_0000_0000_0000,
                ;
                assert(s[s.len() - 1] * pow256(7) >= 0x80 * pow256(7)) by (nonlinear_arith)
                    requires
                        s[s.len() - 1] >= 0x80,
                        pow256(7) > 0,
                ;
            }
            i64::MIN + ((v - 0x8000_0000_0000_0000u64) as i64)
        } else {
            let p = pow256_u64(n);
            proof {
                assert(s[s.len() - 1] * pow256((n - 1) as nat) >= 0) by (nonlinear_arith)
                    requires
                        s[s.len() - 1] >= 0,
                        pow256((n - 1) as nat) > 0,
                ;
            }
            (v as i64) - (p as i64)
        }
    } else {
        if n == 8 {
            proof {
                assert((s[s.len() - 1] + 1) * pow256(7) <= 0x80 * pow256(7)) by (nonlinear_arith)
                    requires
                        s[s.len() - 1] < 0x80,
                        pow256(7) > 0,
                ;
                assert(0x80 * pow256(7) == 0x8000_0000_0000_0000) by (nonlinear_arith)
                    requires
                        pow256(7) == 0x100_0000_0000_0000,
                ;
            }
        }
        v as i64
    }
}

} // verus!
