//! Little-endian encoding and decoding of the integers that appear in
//! on-media region headers: a 32-bit owner identifier and a platform-word
//! region length.

use vstd::arithmetic::power2::{lemma2_to64, lemma2_to64_rest, lemma_pow2_adds, pow2};
use vstd::bits::{lemma_u32_shl_is_mul, lemma_u64_shl_is_mul};
use vstd::prelude::*;

verus! {

/// The numeric value of a little-endian byte sequence.
pub open spec fn le_bytes_val(s: Seq<u8>) -> nat
    decreases s.len(),
{
    if s.len() == 0 {
        0
    } else {
        s[0] as nat + 256 * le_bytes_val(s.subrange(1, s.len() as int))
    }
}

/// Taking one more byte adds that byte, weighted by its position.
pub proof fn lemma_le_bytes_val_take_step(s: Seq<u8>, i: int)
    requires
        0 <= i < s.len(),
    ensures
        le_bytes_val(s.take(i + 1)) == le_bytes_val(s.take(i)) + (s[i] as nat) * pow2((8 * i) as nat),
    decreases i,
{
    if i == 0 {
        assert(le_bytes_val(Seq::<u8>::empty()) == 0);
        assert(s.take(0) =~= Seq::<u8>::empty());
        assert(le_bytes_val(s.take(1)) == s[0] as nat) by {
            assert(s.take(1).len() == 1);
            assert(s.take(1).subrange(1, 1) =~= Seq::<u8>::empty());
            assert(s.take(1)[0] == s[0]);
        }
        lemma2_to64();
    } else {
        let t = s.subrange(1, s.len() as int);
        lemma_le_bytes_val_take_step(t, i - 1);
        assert(s.take(i + 1).subrange(1, i + 1) =~= t.take(i));
        assert(s.take(i).subrange(1, i) =~= t.take(i - 1));
        assert(t[i - 1] == s[i]);
        assert(le_bytes_val(s.take(i + 1)) == s[0] as nat + 256 * le_bytes_val(t.take(i)));
        assert(le_bytes_val(s.take(i)) == s[0] as nat + 256 * le_bytes_val(t.take(i - 1)));
        lemma_pow2_adds(8, (8 * (i - 1)) as nat);
        lemma2_to64();
        assert(256 * (le_bytes_val(t.take(i - 1)) + (s[i] as nat) * pow2((8 * (i - 1)) as nat))
            == 256 * le_bytes_val(t.take(i - 1)) + (s[i] as nat) * (256 * pow2((8 * (i - 1)) as nat)))
            by (nonlinear_arith);
    }
}

/// The value of a four-byte sequence, written as a sum.
pub proof fn lemma_le_bytes_val_4(s: Seq<u8>)
    requires
        s.len() == 4,
    ensures
        le_bytes_val(s) == s[0] as nat + (s[1] as nat) * 0x100 + (s[2] as nat) * 0x10000 + (
        s[3] as nat) * 0x1000000,
{
    lemma2_to64();
    lemma_le_bytes_val_take_step(s, 0);
    lemma_le_bytes_val_take_step(s, 1);
    lemma_le_bytes_val_take_step(s, 2);
    lemma_le_bytes_val_take_step(s, 3);
    assert(s.take(0) =~= Seq::<u8>::empty());
    assert(le_bytes_val(Seq::<u8>::empty()) == 0);
    assert(s.take(4) =~= s);
    assert(le_bytes_val(s.take(0int + 1)) == le_bytes_val(s.take(0)) + (s[0] as nat) * pow2(
    (8 * 0) as nat));
    assert(le_bytes_val(s.take(1int + 1)) == le_bytes_val(s.take(1)) + (s[1] as nat) * pow2(
    (8 * 1) as nat));
    assert(le_bytes_val(s.take(2int + 1)) == le_bytes_val(s.take(2)) + (s[2] as nat) * pow2(
    (8 * 2) as nat));
    assert(le_bytes_val(s.take(3int + 1)) == le_bytes_val(s.take(3)) + (s[3] as nat) * pow2(
    (8 * 3) as nat));
    assert((s[0] as nat) * pow2((8 * 0) as nat) == (s[0] as nat) * 1) by (nonlinear_arith)
        requires
            pow2((8 * 0) as nat) == 1,
    ;
    assert((s[1] as nat) * pow2((8 * 1) as nat) == (s[1] as nat) * 0x100) by (nonlinear_arith)
        requires
            pow2((8 * 1) as nat) == 0x100,
    ;
    assert((s[2] as nat) * pow2((8 * 2) as nat) == (s[2] as nat) * 0x10000) by (nonlinear_arith)
        requires
            pow2((8 * 2) as nat) == 0x10000,
    ;
    assert((s[3] as nat) * pow2((8 * 3) as nat) == (s[3] as nat) * 0x1000000) by (nonlinear_arith)
        requires
            pow2((8 * 3) as nat) == 0x1000000,
    ;
    assert(le_bytes_val(s.take(1)) == s[0] as nat);
    assert(le_bytes_val(s.take(2)) == s[0] as nat + (s[1] as nat) * 0x100);
    assert(le_bytes_val(s.take(3)) == s[0] as nat + (s[1] as nat) * 0x100 + (s[2] as nat)
        * 0x10000);
    assert(le_bytes_val(s.take(4)) == s[0] as nat + (s[1] as nat) * 0x100 + (s[2] as nat) * 0x10000
        + (s[3] as nat) * 0x1000000);
}

/// The value of an eight-byte sequence, written as a sum.
pub proof fn lemma_le_bytes_val_8(s: Seq<u8>)
    requires
        s.len() == 8,
    ensures
        le_bytes_val(s) == s[0] as nat + (s[1] as nat) * 0x100 + (s[2] as nat) * 0x10000 + (
        s[3] as nat) * 0x1000000 + (s[4] as nat) * 0x100000000 + (s[5] as nat) * 0x10000000000 + (
        s[6] as nat) * 0x1000000000000 + (s[7] as nat) * 0x100000000000000,
{
    lemma2_to64();
    lemma2_to64_rest();
    lemma_le_bytes_val_take_step(s, 0);
    lemma_le_bytes_val_take_step(s, 1);
    lemma_le_bytes_val_take_step(s, 2);
    lemma_le_bytes_val_take_step(s, 3);
    lemma_le_bytes_val_take_step(s, 4);
    lemma_le_bytes_val_take_step(s, 5);
    lemma_le_bytes_val_take_step(s, 6);
    lemma_le_bytes_val_take_step(s, 7);
    assert(s.take(0) =~= Seq::<u8>::empty());
    assert(le_bytes_val(Seq::<u8>::empty()) == 0);
    assert(s.take(8) =~= s);
    assert(le_bytes_val(s.take(0int + 1)) == le_bytes_val(s.take(0)) + (s[0] as nat) * pow2(
    (8 * 0) as nat));
    assert(le_bytes_val(s.take(1int + 1)) == le_bytes_val(s.take(1)) + (s[1] as nat) * pow2(
    (8 * 1) as nat));
    assert(le_bytes_val(s.take(2int + 1)) == le_bytes_val(s.take(2)) + (s[2] as nat) * pow2(
    (8 * 2) as nat));
    assert(le_bytes_val(s.take(3int + 1)) == le_bytes_val(s.take(3)) + (s[3] as nat) * pow2(
    (8 * 3) as nat));
    assert(le_bytes_val(s.take(4int + 1)) == le_bytes_val(s.take(4)) + (s[4] as nat) * pow2(
    (8 * 4) as nat));
    assert(le_bytes_val(s.take(5int + 1)) == le_bytes_val(s.take(5)) + (s[5] as nat) * pow2(
    (8 * 5) as nat));
    assert(le_bytes_val(s.take(6int + 1)) == le_bytes_val(s.take(6)) + (s[6] as nat) * pow2(
    (8 * 6) as nat));
    assert(le_bytes_val(s.take(7int + 1)) == le_bytes_val(s.take(7)) + (s[7] as nat) * pow2(
    (8 * 7) as nat));
    assert((s[0] as nat) * pow2((8 * 0) as nat) == (s[0] as nat) * 1) by (nonlinear_arith)
        requires
            pow2((8 * 0) as nat) == 1,
    ;
    assert((s[1] as nat) * pow2((8 * 1) as nat) == (s[1] as nat) * 0x100) by (nonlinear_arith)
        requires
            pow2((8 * 1) as nat) == 0x100,
    ;
    assert((s[2] as nat) * pow2((8 * 2) as nat) == (s[2] as nat) * 0x10000) by (nonlinear_arith)
        requires
            pow2((8 * 2) as nat) == 0x10000,
    ;
    assert((s[3] as nat) * pow2((8 * 3) as nat) == (s[3] as nat) * 0x1000000) by (nonlinear_arith)
        requires
            pow2((8 * 3) as nat) == 0x1000000,
    ;

    assert((s[4] as nat) * pow2((8 * 4) as nat) == (s[4] as nat) * 0x100000000) by (nonlinear_arith)
        requires
            pow2((8 * 4) as nat) == 0x100000000,
    ;
    assert((s[5] as nat) * pow2((8 * 5) as nat) == (s[5] as nat) * 0x10000000000) by (nonlinear_arith)
        requires
            pow2((8 * 5) as nat) == 0x10000000000,
    ;
    assert((s[6] as nat) * pow2((8 * 6) as nat) == (s[6] as nat) * 0x1000000000000) by (nonlinear_arith)
        requires
            pow2((8 * 6) as nat) == 0x1000000000000,
    ;
    assert((s[7] as nat) * pow2((8 * 7) as nat) == (s[7] as nat) * 0x100000000000000) by (nonlinear_arith)
        requires
            pow2((8 * 7) as nat) == 0x100000000000000,
    ;    assert(le_bytes_val(s.take(1)) == s[0] as nat);
    assert(le_bytes_val(s.take(2)) == s[0] as nat + (s[1] as nat) * 0x100);
    assert(le_bytes_val(s.take(3)) == s[0] as nat + (s[1] as nat) * 0x100 + (s[2] as nat)
        * 0x10000);
    assert(le_bytes_val(s.take(4)) == s[0] as nat + (s[1] as nat) * 0x100 + (s[2] as nat) * 0x10000
        + (s[3] as nat) * 0x1000000);
    assert(le_bytes_val(s.take(5)) == s[0] as nat + (s[1] as nat) * 0x100 + (s[2] as nat) * 0x10000
        + (s[3] as nat) * 0x1000000 + (s[4] as nat) * 0x100000000);
    assert(le_bytes_val(s.take(6)) == s[0] as nat + (s[1] as nat) * 0x100 + (s[2] as nat) * 0x10000
        + (s[3] as nat) * 0x1000000 + (s[4] as nat) * 0x100000000 + (s[5] as nat) * 0x10000000000);
    assert(le_bytes_val(s.take(7)) == s[0] as nat + (s[1] as nat) * 0x100 + (s[2] as nat) * 0x10000
        + (s[3] as nat) * 0x1000000 + (s[4] as nat) * 0x100000000 + (s[5] as nat) * 0x10000000000
        + (s[6] as nat) * 0x1000000000000);
    assert(le_bytes_val(s.take(8)) == s[0] as nat + (s[1] as nat) * 0x100 + (s[2] as nat) * 0x10000
        + (s[3] as nat) * 0x1000000 + (s[4] as nat) * 0x100000000 + (s[5] as nat) * 0x10000000000
        + (s[6] as nat) * 0x1000000000000 + (s[7] as nat) * 0x100000000000000);
}

/// Decodes up to four little-endian bytes as a 32-bit integer.
pub fn u8_slice_to_u32(bytes: &[u8]) -> (r: u32)
    requires
        bytes@.len() <= 4,
    ensures
        r as nat == le_bytes_val(bytes@),
{
    let mut result: u32 = 0;
    let mut i: usize = 0;
    proof {
        lemma2_to64();
        assert(bytes@.take(0) =~= Seq::<u8>::empty());
        assert(le_bytes_val(Seq::<u8>::empty()) == 0);
    }
    while i < bytes.len()
        invariant
            bytes@.len() <= 4,
            i <= bytes@.len(),
            result as nat == le_bytes_val(bytes@.take(i as int)),
            result < pow2((8 * i) as nat),
        decreases bytes@.len() - i,
    {
        let byte: u8 = bytes[i];
        let shift: u32 = 8 * (i as u32);
        proof {
            lemma2_to64();
            lemma_le_bytes_val_take_step(bytes@, i as int);
            assert((byte as u32) * pow2(shift as nat) <= 255 * pow2(24)) by (nonlinear_arith)
                requires
                    byte <= 255 && pow2(shift as nat) <= pow2(24),
            ;
            lemma_u32_shl_is_mul(byte as u32, shift);
            lemma_u32_shl_is_mul(1u32, shift);
            assert(result | ((byte as u32) << shift) == result + ((byte as u32) << shift))
                by (bit_vector)
                requires
                    result < (1u32 << shift) && shift <= 24,
            ;
            lemma_pow2_adds((8 * i) as nat, 8);
            assert((result + (byte as u32) * pow2((8 * i) as nat)) < 256 * pow2((8 * i) as nat))
                by (nonlinear_arith)
                requires
                    result < pow2((8 * i) as nat) && byte <= 255,
            ;
        }
        result = result | ((byte as u32) << shift);
        i = i + 1;
    }
    proof {
        assert(bytes@.take(bytes@.len() as int) =~= bytes@);
    }
    result
}

/// Decodes up to eight little-endian bytes as a 64-bit integer.
pub fn u8_slice_to_u64(bytes: &[u8]) -> (r: u64)
    requires
        bytes@.len() <= 8,
    ensures
        r as nat == le_bytes_val(bytes@),
{
    let mut result: u64 = 0;
    let mut i: usize = 0;
    proof {
        lemma2_to64();
        assert(bytes@.take(0) =~= Seq::<u8>::empty());
        assert(le_bytes_val(Seq::<u8>::empty()) == 0);
    }
    while i < bytes.len()
        invariant
            bytes@.len() <= 8,
            i <= bytes@.len(),
            result as nat == le_bytes_val(bytes@.take(i as int)),
            result < pow2((8 * i) as nat),
        decreases bytes@.len() - i,
    {
        let byte: u8 = bytes[i];
        let shift: u64 = 8 * (i as u64);
        proof {
            lemma2_to64();
            lemma2_to64_rest();
            lemma_le_bytes_val_take_step(bytes@, i as int);
            assert((byte as u64) * pow2(shift as nat) <= 255 * pow2(56)) by (nonlinear_arith)
                requires
                    byte <= 255 && pow2(shift as nat) <= pow2(56),
            ;
            lemma_u64_shl_is_mul(byte as u64, shift);
            lemma_u64_shl_is_mul(1u64, shift);
            assert(result | ((byte as u64) << shift) == result + ((byte as u64) << shift))
                by (bit_vector)
                requires
                    result < (1u64 << shift) && shift <= 56,
            ;
            lemma_pow2_adds((8 * i) as nat, 8);
            assert((result + (byte as u64) * pow2((8 * i) as nat)) < 256 * pow2((8 * i) as nat))
                by (nonlinear_arith)
                requires
                    result < pow2((8 * i) as nat) && byte <= 255,
            ;
        }
        result = result | ((byte as u64) << shift);
        i = i + 1;
    }
    proof {
        assert(bytes@.take(bytes@.len() as int) =~= bytes@);
    }
    result
}

/// Decodes up to eight little-endian bytes as a platform-word integer. The
/// encoded value must fit the platform word.
pub fn u8_slice_to_usize(bytes: &[u8]) -> (r: usize)
    requires
        bytes@.len() <= 8,
        le_bytes_val(bytes@) <= usize::MAX,
    ensures
        r as nat == le_bytes_val(bytes@),
{
    let wide: u64 = u8_slice_to_u64(bytes);
    wide as usize
}

/// Encodes a 32-bit integer as four little-endian bytes.
pub fn u32_to_u8_slice(val: u32) -> (r: [u8; 4])
    ensures
        r@.len() == 4,
        le_bytes_val(r@) == val,
{
    let r: [u8; 4] = [
        (val & 0xFF) as u8,
        ((val >> 8u32) & 0xFF) as u8,
        ((val >> 16u32) & 0xFF) as u8,
        ((val >> 24u32) & 0xFF) as u8,
    ];
    proof {
        let b0 = r@[0];
        let b1 = r@[1];
        let b2 = r@[2];
        let b3 = r@[3];
        lemma_le_bytes_val_4(r@);
        assert(b0 as nat + (b1 as nat) * 0x100 + (b2 as nat) * 0x10000 + (b3 as nat) * 0x1000000
            == val) by (bit_vector)
            requires
                b0 == (val & 0xFF) as u8 && b1 == ((val >> 8u32) & 0xFF) as u8 && b2 == ((val
                    >> 16u32) & 0xFF) as u8 && b3 == ((val >> 24u32) & 0xFF) as u8,
        ;
    }
    r
}

/// Encodes a platform-word integer as eight little-endian bytes.
pub fn usize_to_u8_slice(val: usize) -> (r: [u8; 8])
    ensures
        r@.len() == 8,
        le_bytes_val(r@) == val,
{
    let wide: u64 = val as u64;
    let r: [u8; 8] = [
        (wide & 0xFF) as u8,
        ((wide >> 8u64) & 0xFF) as u8,
        ((wide >> 16u64) & 0xFF) as u8,
        ((wide >> 24u64) & 0xFF) as u8,
        ((wide >> 32u64) & 0xFF) as u8,
        ((wide >> 40u64) & 0xFF) as u8,
        ((wide >> 48u64) & 0xFF) as u8,
        ((wide >> 56u64) & 0xFF) as u8,
    ];
    proof {
        let b0 = r@[0];
        let b1 = r@[1];
        let b2 = r@[2];
        let b3 = r@[3];
        let b4 = r@[4];
        let b5 = r@[5];
        let b6 = r@[6];
        let b7 = r@[7];
        lemma_le_bytes_val_8(r@);
        assert(b0 as nat + (b1 as nat) * 0x100 + (b2 as nat) * 0x10000 + (b3 as nat) * 0x1000000 + (
        b4 as nat) * 0x100000000 + (b5 as nat) * 0x10000000000 + (b6 as nat) * 0x1000000000000 + (
        b7 as nat) * 0x100000000000000 == wide) by (bit_vector)
            requires
                b0 == (wide & 0xFF) as u8 && b1 == ((wide >> 8u64) & 0xFF) as u8 && b2 == ((wide
                    >> 16u64) & 0xFF) as u8 && b3 == ((wide >> 24u64) & 0xFF) as u8 && b4 == ((wide
                    >> 32u64) & 0xFF) as u8 && b5 == ((wide >> 40u64) & 0xFF) as u8 && b6 == ((wide
                    >> 48u64) & 0xFF) as u8 && b7 == ((wide >> 56u64) & 0xFF) as u8,
        ;
    }
    r
}

} // verus!
