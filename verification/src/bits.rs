//! Bit-level predicates shared by the flag and mask types, with the
//! bit-vector lemmas that the rest of the crate reasons with.
use vstd::prelude::*;

verus! {

/// Bit `i` of an 8-bit value is set.
pub open spec fn bit8(v: u8, i: u8) -> bool {
    v & (1u8 << i) != 0
}

/// Bit `i` of a 16-bit value is set.
pub open spec fn bit16(v: u16, i: u16) -> bool {
    v & (1u16 << i) != 0
}

/// Bit `i` of a 64-bit value is set.
pub open spec fn bit64(v: u64, i: u64) -> bool {
    v & (1u64 << i) != 0
}

/// A value masked with a single bit is that bit exactly when the bit is set.
pub proof fn lemma_u8_single_bit(v: u8, i: u8)
    requires
        i < 8,
    ensures
        (v & (1u8 << i) == (1u8 << i)) == bit8(v, i),
{
    assert((v & (1u8 << i) == (1u8 << i)) == (v & (1u8 << i) != 0)) by (bit_vector)
        requires
            i < 8,
    ;
}

/// Replacing one 4-bit half of a byte keeps the other half.
pub proof fn lemma_set_nibble(b: u8, l: u8)
    requires
        l <= 15,
    ensures
        ((b & 0xF0u8) | l) & 0xFu8 == l,
        (((b & 0xF0u8) | l) >> 4u8) & 0xFu8 == (b >> 4u8) & 0xFu8,
        (((b & 0x0Fu8) | (l << 4u8)) >> 4u8) & 0xFu8 == l,
        ((b & 0x0Fu8) | (l << 4u8)) & 0xFu8 == b & 0xFu8,
        b & 0xFu8 <= 15,
        (b >> 4u8) & 0xFu8 <= 15,
{
    assert(((b & 0xF0u8) | l) & 0xFu8 == l && (((b & 0xF0u8) | l) >> 4u8) & 0xFu8 == (b >> 4u8) & 0xFu8
        && (((b & 0x0Fu8) | (l << 4u8)) >> 4u8) & 0xFu8 == l && ((b & 0x0Fu8) | (l << 4u8)) & 0xFu8 == b & 0xFu8
        && b & 0xFu8 <= 15 && (b >> 4u8) & 0xFu8 <= 15) by (bit_vector)
        requires
            l <= 15,
    ;
}

/// A zero byte stays zero when masked, and a byte with a bit in a mask is
/// not zero.
pub proof fn lemma_u8_zero_mask(v: u8, m: u8)
    ensures
        v == 0 ==> v & m == 0,
        v & m != 0 ==> v != 0,
{
    assert((v == 0 ==> v & m == 0) && (v & m != 0 ==> v != 0)) by (bit_vector);
}

/// Setting or clearing bit `i` of an 8-bit value changes only that bit.
pub proof fn lemma_bit8_update(v: u8, i: u8, j: u8)
    requires
        i < 8,
        j < 8,
    ensures
        bit8(v | (1u8 << i), j) == (i == j || bit8(v, j)),
        bit8(v & !(1u8 << i), j) == (i != j && bit8(v, j)),
{
    assert(((v | (1u8 << i)) & (1u8 << j) != 0) == (i == j || v & (1u8 << j) != 0)) by (bit_vector)
        requires
            i < 8,
            j < 8,
    ;
    assert(((v & !(1u8 << i)) & (1u8 << j) != 0) == (i != j && v & (1u8 << j) != 0)) by (bit_vector)
        requires
            i < 8,
            j < 8,
    ;
}

/// The values of `1 << i` for every bit of a byte.
pub proof fn lemma_u8_shifts()
    ensures
        1u8 << 0u8 == 1u8,
        1u8 << 1u8 == 2u8,
        1u8 << 2u8 == 4u8,
        1u8 << 3u8 == 8u8,
        1u8 << 4u8 == 16u8,
        1u8 << 5u8 == 32u8,
        1u8 << 6u8 == 64u8,
        1u8 << 7u8 == 128u8,
{
    assert(1u8 << 0u8 == 1u8 && 1u8 << 1u8 == 2u8 && 1u8 << 2u8 == 4u8 && 1u8 << 3u8 == 8u8
        && 1u8 << 4u8 == 16u8 && 1u8 << 5u8 == 32u8 && 1u8 << 6u8 == 64u8 && 1u8 << 7u8 == 128u8)
        by (bit_vector);
}


/// Setting or clearing bit `i` of a 16-bit value changes only that bit.
pub proof fn lemma_bit16_update(v: u16, i: u16, j: u16)
    requires
        i < 16,
        j < 16,
    ensures
        bit16(v | (1u16 << i), j) == (i == j || bit16(v, j)),
        bit16(v & !(1u16 << i), j) == (i != j && bit16(v, j)),
{
    assert(((v | (1u16 << i)) & (1u16 << j) != 0) == (i == j || v & (1u16 << j) != 0)
        && ((v & !(1u16 << i)) & (1u16 << j) != 0) == (i != j && v & (1u16 << j) != 0))
        by (bit_vector)
        requires
            i < 16,
            j < 16,
    ;
}

/// Setting or clearing bit `i` of a 64-bit value changes only that bit.
pub proof fn lemma_bit64_update(v: u64, i: u64, j: u64)
    requires
        i < 64,
        j < 64,
    ensures
        bit64(v | (1u64 << i), j) == (i == j || bit64(v, j)),
        bit64(v & !(1u64 << i), j) == (i != j && bit64(v, j)),
{
    assert(((v | (1u64 << i)) & (1u64 << j) != 0) == (i == j || v & (1u64 << j) != 0)
        && ((v & !(1u64 << i)) & (1u64 << j) != 0) == (i != j && v & (1u64 << j) != 0))
        by (bit_vector)
        requires
            i < 64,
            j < 64,
    ;
}

/// Zero has no bit set.
pub proof fn lemma_zero_bits(i: u64)
    requires
        i < 64,
    ensures
        !bit64(0, i),
        i < 16 ==> !bit16(0, i as u16),
        i < 8 ==> !bit8(0, i as u8),
{
    let j16 = i as u16;
    let j8 = i as u8;
    assert(0u64 & (1u64 << i) == 0) by (bit_vector);
    assert(j16 < 16 ==> 0u16 & (1u16 << j16) == 0) by (bit_vector);
    assert(j8 < 8 ==> 0u8 & (1u8 << j8) == 0) by (bit_vector);
}

/// `a & !b` is zero exactly when every bit of `a` is also a bit of `b`.
pub proof fn lemma_u16_andnot_zero(a: u16, b: u16)
    ensures
        (a & !b == 0) <==> (forall|x: u16| x < 16 ==> #[trigger] bit16(a, x) ==> bit16(b, x)),
{
    assert forall|x: u16| x < 16 && a & !b == 0 && #[trigger] bit16(a, x) implies bit16(b, x) by {
        assert(x < 16 && a & !b == 0 ==> (a & (1u16 << x) != 0 ==> b & (1u16 << x) != 0))
            by (bit_vector);
    }
    if forall|x: u16| x < 16 ==> #[trigger] bit16(a, x) ==> bit16(b, x) {
        assert(a & !b == 0) by (bit_vector)
            requires
            (bit16(a, 0u16) ==> bit16(b, 0u16)),
            (bit16(a, 1u16) ==> bit16(b, 1u16)),
            (bit16(a, 2u16) ==> bit16(b, 2u16)),
            (bit16(a, 3u16) ==> bit16(b, 3u16)),
            (bit16(a, 4u16) ==> bit16(b, 4u16)),
            (bit16(a, 5u16) ==> bit16(b, 5u16)),
            (bit16(a, 6u16) ==> bit16(b, 6u16)),
            (bit16(a, 7u16) ==> bit16(b, 7u16)),
            (bit16(a, 8u16) ==> bit16(b, 8u16)),
            (bit16(a, 9u16) ==> bit16(b, 9u16)),
            (bit16(a, 10u16) ==> bit16(b, 10u16)),
            (bit16(a, 11u16) ==> bit16(b, 11u16)),
            (bit16(a, 12u16) ==> bit16(b, 12u16)),
            (bit16(a, 13u16) ==> bit16(b, 13u16)),
            (bit16(a, 14u16) ==> bit16(b, 14u16)),
            (bit16(a, 15u16) ==> bit16(b, 15u16)),
        ;
    }
}

/// `a & !b` is zero exactly when every bit of `a` is also a bit of `b`.
pub proof fn lemma_u64_andnot_zero(a: u64, b: u64)
    ensures
        (a & !b == 0) <==> (forall|x: u64| x < 64 ==> #[trigger] bit64(a, x) ==> bit64(b, x)),
{
    assert forall|x: u64| x < 64 && a & !b == 0 && #[trigger] bit64(a, x) implies bit64(b, x) by {
        assert(x < 64 && a & !b == 0 ==> (a & (1u64 << x) != 0 ==> b & (1u64 << x) != 0))
            by (bit_vector);
    }
    if forall|x: u64| x < 64 ==> #[trigger] bit64(a, x) ==> bit64(b, x) {
        assert(a & !b == 0) by (bit_vector)
            requires
            (bit64(a, 0u64) ==> bit64(b, 0u64)),
            (bit64(a, 1u64) ==> bit64(b, 1u64)),
            (bit64(a, 2u64) ==> bit64(b, 2u64)),
            (bit64(a, 3u64) ==> bit64(b, 3u64)),
            (bit64(a, 4u64) ==> bit64(b, 4u64)),
            (bit64(a, 5u64) ==> bit64(b, 5u64)),
            (bit64(a, 6u64) ==> bit64(b, 6u64)),
            (bit64(a, 7u64) ==> bit64(b, 7u64)),
            (bit64(a, 8u64) ==> bit64(b, 8u64)),
            (bit64(a, 9u64) ==> bit64(b, 9u64)),
            (bit64(a, 10u64) ==> bit64(b, 10u64)),
            (bit64(a, 11u64) ==> bit64(b, 11u64)),
            (bit64(a, 12u64) ==> bit64(b, 12u64)),
            (bit64(a, 13u64) ==> bit64(b, 13u64)),
            (bit64(a, 14u64) ==> bit64(b, 14u64)),
            (bit64(a, 15u64) ==> bit64(b, 15u64)),
            (bit64(a, 16u64) ==> bit64(b, 16u64)),
            (bit64(a, 17u64) ==> bit64(b, 17u64)),
            (bit64(a, 18u64) ==> bit64(b, 18u64)),
            (bit64(a, 19u64) ==> bit64(b, 19u64)),
            (bit64(a, 20u64) ==> bit64(b, 20u64)),
            (bit64(a, 21u64) ==> bit64(b, 21u64)),
            (bit64(a, 22u64) ==> bit64(b, 22u64)),
            (bit64(a, 23u64) ==> bit64(b, 23u64)),
            (bit64(a, 24u64) ==> bit64(b, 24u64)),
            (bit64(a, 25u64) ==> bit64(b, 25u64)),
            (bit64(a, 26u64) ==> bit64(b, 26u64)),
            (bit64(a, 27u64) ==> bit64(b, 27u64)),
            (bit64(a, 28u64) ==> bit64(b, 28u64)),
            (bit64(a, 29u64) ==> bit64(b, 29u64)),
            (bit64(a, 30u64) ==> bit64(b, 30u64)),
            (bit64(a, 31u64) ==> bit64(b, 31u64)),
            (bit64(a, 32u64) ==> bit64(b, 32u64)),
            (bit64(a, 33u64) ==> bit64(b, 33u64)),
            (bit64(a, 34u64) ==> bit64(b, 34u64)),
            (bit64(a, 35u64) ==> bit64(b, 35u64)),
            (bit64(a, 36u64) ==> bit64(b, 36u64)),
            (bit64(a, 37u64) ==> bit64(b, 37u64)),
            (bit64(a, 38u64) ==> bit64(b, 38u64)),
            (bit64(a, 39u64) ==> bit64(b, 39u64)),
            (bit64(a, 40u64) ==> bit64(b, 40u64)),
            (bit64(a, 41u64) ==> bit64(b, 41u64)),
            (bit64(a, 42u64) ==> bit64(b, 42u64)),
            (bit64(a, 43u64) ==> bit64(b, 43u64)),
            (bit64(a, 44u64) ==> bit64(b, 44u64)),
            (bit64(a, 45u64) ==> bit64(b, 45u64)),
            (bit64(a, 46u64) ==> bit64(b, 46u64)),
            (bit64(a, 47u64) ==> bit64(b, 47u64)),
            (bit64(a, 48u64) ==> bit64(b, 48u64)),
            (bit64(a, 49u64) ==> bit64(b, 49u64)),
            (bit64(a, 50u64) ==> bit64(b, 50u64)),
            (bit64(a, 51u64) ==> bit64(b, 51u64)),
            (bit64(a, 52u64) ==> bit64(b, 52u64)),
            (bit64(a, 53u64) ==> bit64(b, 53u64)),
            (bit64(a, 54u64) ==> bit64(b, 54u64)),
            (bit64(a, 55u64) ==> bit64(b, 55u64)),
            (bit64(a, 56u64) ==> bit64(b, 56u64)),
            (bit64(a, 57u64) ==> bit64(b, 57u64)),
            (bit64(a, 58u64) ==> bit64(b, 58u64)),
            (bit64(a, 59u64) ==> bit64(b, 59u64)),
            (bit64(a, 60u64) ==> bit64(b, 60u64)),
            (bit64(a, 61u64) ==> bit64(b, 61u64)),
            (bit64(a, 62u64) ==> bit64(b, 62u64)),
            (bit64(a, 63u64) ==> bit64(b, 63u64)),
        ;
    }
}

/// The 16-bit value whose bits `2i` and `2i + 1` are bit `i` of `b`.
pub open spec fn spec_expand_byte(b: u8) -> u16 {
    let x0 = b as u16;
    let x1 = (x0 | (x0 << 4u16)) & 0x0F0Fu16;
    let x2 = (x1 | (x1 << 2u16)) & 0x3333u16;
    let x3 = (x2 | (x2 << 1u16)) & 0x5555u16;
    x3 | (x3 << 1u16)
}

/// Bit `x` of the expanded byte is bit `x / 2` of the byte.
pub proof fn lemma_expand_byte(b: u8, x: u16)
    requires
        x < 16,
    ensures
        bit16(spec_expand_byte(b), x) == bit8(b, (x / 2) as u8),
{
    assert(x < 16 ==> ((({
        let x0 = b as u16;
        let x1 = (x0 | (x0 << 4u16)) & 0x0F0Fu16;
        let x2 = (x1 | (x1 << 2u16)) & 0x3333u16;
        let x3 = (x2 | (x2 << 1u16)) & 0x5555u16;
        x3 | (x3 << 1u16)
    }) & (1u16 << x)) != 0) == (b & (1u8 << ((x / 2) as u8)) != 0)) by (bit_vector);
}

/// Byte `j` of a 64-bit value holds its bits `8j .. 8j + 8`.
pub proof fn lemma_byte_of_u64(v: u64, j: u64, i: u64)
    requires
        j < 8,
        i < 8,
    ensures
        bit8(((v >> (j * 8) as u64) & 0xFFu64) as u8, i as u8) == bit64(v, (j * 8 + i) as u64),
{
    let i8 = i as u8;
    assert(j < 8 && i < 8 && i8 == i ==> (((((v >> ((j * 8) as u64)) & 0xFFu64) as u8) & (1u8 << i8)) != 0) == (v & (1u64 << ((j * 8 + i) as u64)) != 0)) by (bit_vector);
}

/// The bits of `(1 << r) - (1 << l)` are exactly `l .. r`.
pub proof fn lemma_range_mask(l: u32, r: u32, x: u16)
    requires
        l < r,
        r < 32,
        x < 16,
    ensures
        (1u32 << l) <= (1u32 << r),
        bit16((((1u32 << r) - (1u32 << l)) as u32) as u16, x) == (l <= x && x < r),
{
    let x32 = x as u32;
    assert(l < r && r < 32 && x < 16 && x32 == x ==> (1u32 << l) <= (1u32 << r) && (((((1u32 << r) - (1u32 << l)) as u32) as u16) & (1u16 << x) != 0) == (l <= x32 && x32 < r)) by (bit_vector);
}

/// A 16-bit value below `1 << w` has no bit set from `w` up.
pub proof fn lemma_u16_high_bits_clear(x: u16, w: u16, b: u16)
    requires
        w <= b < 16,
        x < (1u16 << w),
    ensures
        !bit16(x, b),
{
    assert(x & (1u16 << b) == 0) by (bit_vector)
        requires
            w <= b < 16,
            x < (1u16 << w),
    ;
}

/// Two 16-bit values with the same bits are equal.
pub proof fn lemma_u16_bits_eq(x: u16, y: u16)
    requires
        forall|b: u16| b < 16 ==> #[trigger] bit16(x, b) == bit16(y, b),
    ensures
        x == y,
{
    assert(bit16(x, 0) == bit16(y, 0) && bit16(x, 1) == bit16(y, 1) && bit16(x, 2) == bit16(y, 2));
    assert(bit16(x, 3) == bit16(y, 3) && bit16(x, 4) == bit16(y, 4) && bit16(x, 5) == bit16(y, 5));
    assert(bit16(x, 6) == bit16(y, 6) && bit16(x, 7) == bit16(y, 7) && bit16(x, 8) == bit16(y, 8));
    assert(bit16(x, 9) == bit16(y, 9) && bit16(x, 10) == bit16(y, 10) && bit16(x, 11) == bit16(y, 11));
    assert(bit16(x, 12) == bit16(y, 12) && bit16(x, 13) == bit16(y, 13) && bit16(x, 14) == bit16(y, 14));
    assert(bit16(x, 15) == bit16(y, 15));
    assert(x == y) by (bit_vector)
        requires
            (x & (1u16 << 0u16) != 0) == (y & (1u16 << 0u16) != 0),
            (x & (1u16 << 1u16) != 0) == (y & (1u16 << 1u16) != 0),
            (x & (1u16 << 2u16) != 0) == (y & (1u16 << 2u16) != 0),
            (x & (1u16 << 3u16) != 0) == (y & (1u16 << 3u16) != 0),
            (x & (1u16 << 4u16) != 0) == (y & (1u16 << 4u16) != 0),
            (x & (1u16 << 5u16) != 0) == (y & (1u16 << 5u16) != 0),
            (x & (1u16 << 6u16) != 0) == (y & (1u16 << 6u16) != 0),
            (x & (1u16 << 7u16) != 0) == (y & (1u16 << 7u16) != 0),
            (x & (1u16 << 8u16) != 0) == (y & (1u16 << 8u16) != 0),
            (x & (1u16 << 9u16) != 0) == (y & (1u16 << 9u16) != 0),
            (x & (1u16 << 10u16) != 0) == (y & (1u16 << 10u16) != 0),
            (x & (1u16 << 11u16) != 0) == (y & (1u16 << 11u16) != 0),
            (x & (1u16 << 12u16) != 0) == (y & (1u16 << 12u16) != 0),
            (x & (1u16 << 13u16) != 0) == (y & (1u16 << 13u16) != 0),
            (x & (1u16 << 14u16) != 0) == (y & (1u16 << 14u16) != 0),
            (x & (1u16 << 15u16) != 0) == (y & (1u16 << 15u16) != 0),
    ;
}

/// The all-ones masks have every bit set; masking an all-ones value with
/// `!b` leaves nothing exactly when `b` is all ones; a byte is 15 exactly
/// when it is below 16 with its four low bits set, and its low nibble is 15
/// exactly when those four bits are set; masking `b` with `!0` leaves
/// nothing exactly when `b` is zero; a byte below 16 is not zero exactly
/// when one of its four low bits is set.
pub proof fn lemma_full_masks()
    by (bit_vector)
    ensures
        forall|i: u64| i < 64 ==> #[trigger] (0xFFFF_FFFF_FFFF_FFFFu64 & (1u64 << i)) != 0,
        forall|b: u64| (#[trigger] (0xFFFF_FFFF_FFFF_FFFFu64 & !b) == 0) == (b == 0xFFFF_FFFF_FFFF_FFFFu64),
        forall|i: u16| i < 16 ==> #[trigger] (0xFFFFu16 & (1u16 << i)) != 0,
        forall|b: u16| (#[trigger] (0xFFFFu16 & !b) == 0) == (b == 0xFFFFu16),
        forall|m: u8| #![trigger m & (1u8 << 0u8)]
            (m == 15u8) == (m < 16 && m & (1u8 << 0u8) != 0 && m & (1u8 << 1u8) != 0
                && m & (1u8 << 2u8) != 0 && m & (1u8 << 3u8) != 0),
        forall|m: u8| #![trigger m & 0xFu8]
            (m & 0xFu8 == 0xFu8) == (m & (1u8 << 0u8) != 0 && m & (1u8 << 1u8) != 0
                && m & (1u8 << 2u8) != 0 && m & (1u8 << 3u8) != 0),
        forall|b: u64| (#[trigger] (b & !0u64) == 0) == (b == 0),
        forall|b: u16| (#[trigger] (b & !0u16) == 0) == (b == 0),
        forall|m: u8| #![trigger m & (1u8 << 1u8)]
            m < 16 ==> ((m != 0) == (m & (1u8 << 0u8) != 0 || m & (1u8 << 1u8) != 0
                || m & (1u8 << 2u8) != 0 || m & (1u8 << 3u8) != 0)),
{
}

} // verus!
