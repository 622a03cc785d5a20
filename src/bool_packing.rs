use vstd::prelude::*;

verus! {

/// Bit `i` of a packed table: bit `i % 8` (least significant first) of byte `i / 8`.
pub open spec fn bit_at(bytes: Seq<u8>, i: int) -> bool {
    (bytes[i / 8] >> ((i % 8) as u8)) & 1u8 == 1u8
}

/// The value (0 or 1) that position `i` of `bools` contributes; positions past the end give 0.
pub open spec fn bit_of(bools: Seq<bool>, i: int) -> u8 {
    if 0 <= i < bools.len() && bools[i] {
        1
    } else {
        0
    }
}

/// Byte `k` of the packing of `bools`: positions `8k .. 8k + 8`, the first one in the lowest bit.
pub open spec fn packed_byte(bools: Seq<bool>, k: int) -> u8 {
    let s = 8 * k;
    bit_of(bools, s) | bit_of(bools, s + 1) << 1u8 | bit_of(bools, s + 2) << 2u8 | bit_of(bools, s + 3)
        << 3u8 | bit_of(bools, s + 4) << 4u8 | bit_of(bools, s + 5) << 5u8 | bit_of(bools, s + 6)
        << 6u8 | bit_of(bools, s + 7) << 7u8
}

/// The packing of `bools`: one byte for every eight booleans or part of eight.
pub open spec fn packed(bools: Seq<bool>) -> Seq<u8> {
    Seq::new(((bools.len() + 7) / 8) as nat, |k: int| packed_byte(bools, k))
}

/// Reading bit `j` of a byte assembled from eight bits gives back bit `j`.
proof fn lemma_read_assembled(b0: u8, b1: u8, b2: u8, b3: u8, b4: u8, b5: u8, b6: u8, b7: u8, j: u8)
    requires
        b0 <= 1 && b1 <= 1 && b2 <= 1 && b3 <= 1 && b4 <= 1 && b5 <= 1 && b6 <= 1 && b7 <= 1,
        j < 8,
    ensures
        ({
            let x = b0 | b1 << 1u8 | b2 << 2u8 | b3 << 3u8 | b4 << 4u8 | b5 << 5u8 | b6 << 6u8 | b7
                << 7u8;
            let r = (x >> j) & 1u8;
            &&& j == 0 ==> r == b0
            &&& j == 1 ==> r == b1
            &&& j == 2 ==> r == b2
            &&& j == 3 ==> r == b3
            &&& j == 4 ==> r == b4
            &&& j == 5 ==> r == b5
            &&& j == 6 ==> r == b6
            &&& j == 7 ==> r == b7
        }),
{
    assert({
        let x = b0 | b1 << 1u8 | b2 << 2u8 | b3 << 3u8 | b4 << 4u8 | b5 << 5u8 | b6 << 6u8 | b7
            << 7u8;
        let r = (x >> j) & 1u8;
        &&& j == 0 ==> r == b0
        &&& j == 1 ==> r == b1
        &&& j == 2 ==> r == b2
        &&& j == 3 ==> r == b3
        &&& j == 4 ==> r == b4
        &&& j == 5 ==> r == b5
        &&& j == 6 ==> r == b6
        &&& j == 7 ==> r == b7
    }) by (bit_vector)
        requires
            b0 <= 1 && b1 <= 1 && b2 <= 1 && b3 <= 1 && b4 <= 1 && b5 <= 1 && b6 <= 1 && b7 <= 1,
            j < 8,
    ;
}


/// Setting a clear bit `j` of an assembled byte to `c` is an `or` with `c << j`.
proof fn lemma_set_assembled(
    o0: u8, o1: u8, o2: u8, o3: u8, o4: u8, o5: u8, o6: u8, o7: u8,
    n0: u8, n1: u8, n2: u8, n3: u8, n4: u8, n5: u8, n6: u8, n7: u8,
    c: u8,
    j: u8,
)
    requires
        o0 <= 1 && o1 <= 1 && o2 <= 1 && o3 <= 1 && o4 <= 1 && o5 <= 1 && o6 <= 1 && o7 <= 1,
        c <= 1,
        j < 8,
        if j == 0 { o0 == 0 && n0 == c } else { n0 == o0 },
        if j == 1 { o1 == 0 && n1 == c } else { n1 == o1 },
        if j == 2 { o2 == 0 && n2 == c } else { n2 == o2 },
        if j == 3 { o3 == 0 && n3 == c } else { n3 == o3 },
        if j == 4 { o4 == 0 && n4 == c } else { n4 == o4 },
        if j == 5 { o5 == 0 && n5 == c } else { n5 == o5 },
        if j == 6 { o6 == 0 && n6 == c } else { n6 == o6 },
        if j == 7 { o7 == 0 && n7 == c } else { n7 == o7 },
    ensures
        (n0 | n1 << 1u8 | n2 << 2u8 | n3 << 3u8 | n4 << 4u8 | n5 << 5u8 | n6 << 6u8 | n7 << 7u8)
            == (o0 | o1 << 1u8 | o2 << 2u8 | o3 << 3u8 | o4 << 4u8 | o5 << 5u8 | o6 << 6u8 | o7
            << 7u8) | (c << j),
{
    assert((n0 | n1 << 1u8 | n2 << 2u8 | n3 << 3u8 | n4 << 4u8 | n5 << 5u8 | n6 << 6u8 | n7 << 7u8)
        == (o0 | o1 << 1u8 | o2 << 2u8 | o3 << 3u8 | o4 << 4u8 | o5 << 5u8 | o6 << 6u8 | o7 << 7u8)
        | (c << j)) by (bit_vector)
        requires
            o0 <= 1 && o1 <= 1 && o2 <= 1 && o3 <= 1 && o4 <= 1 && o5 <= 1 && o6 <= 1 && o7 <= 1,
            c <= 1,
            j < 8,
            if j == 0 { o0 == 0 && n0 == c } else { n0 == o0 },
            if j == 1 { o1 == 0 && n1 == c } else { n1 == o1 },
            if j == 2 { o2 == 0 && n2 == c } else { n2 == o2 },
            if j == 3 { o3 == 0 && n3 == c } else { n3 == o3 },
            if j == 4 { o4 == 0 && n4 == c } else { n4 == o4 },
            if j == 5 { o5 == 0 && n5 == c } else { n5 == o5 },
            if j == 6 { o6 == 0 && n6 == c } else { n6 == o6 },
            if j == 7 { o7 == 0 && n7 == c } else { n7 == o7 },
    ;
}

/// Packing one more boolean either starts a new byte or sets one bit of the last byte.
proof fn lemma_packed_push(bools: Seq<bool>, i: int)
    requires
        0 <= i < bools.len(),
    ensures
        i % 8 == 0 ==> packed(bools.take(i + 1)) == packed(bools.take(i)).push(bit_of(bools, i)),
        i % 8 != 0 ==> packed(bools.take(i + 1)) == packed(bools.take(i)).update(
            i / 8,
            packed(bools.take(i))[i / 8] | bit_of(bools, i) << ((i % 8) as u8),
        ),
{
    let p = bools.take(i);
    let q = bools.take(i + 1);
    let k = i / 8;
    let j = i % 8;
    let s = 8 * k;
    let c = bit_of(bools, i);
    assert forall|m: int| m != i implies #[trigger] bit_of(q, m) == bit_of(p, m) by {}
    assert(bit_of(p, i) == 0);
    assert(bit_of(q, i) == c);
    assert forall|kk: int| 0 <= kk < k implies #[trigger] packed_byte(q, kk) == packed_byte(p, kk) by {
        assert(bit_of(q, 8 * kk) == bit_of(p, 8 * kk));
        assert(bit_of(q, 8 * kk + 1) == bit_of(p, 8 * kk + 1));
        assert(bit_of(q, 8 * kk + 2) == bit_of(p, 8 * kk + 2));
        assert(bit_of(q, 8 * kk + 3) == bit_of(p, 8 * kk + 3));
        assert(bit_of(q, 8 * kk + 4) == bit_of(p, 8 * kk + 4));
        assert(bit_of(q, 8 * kk + 5) == bit_of(p, 8 * kk + 5));
        assert(bit_of(q, 8 * kk + 6) == bit_of(p, 8 * kk + 6));
        assert(bit_of(q, 8 * kk + 7) == bit_of(p, 8 * kk + 7));
    }
    lemma_set_assembled(
        bit_of(p, s), bit_of(p, s + 1), bit_of(p, s + 2), bit_of(p, s + 3),
        bit_of(p, s + 4), bit_of(p, s + 5), bit_of(p, s + 6), bit_of(p, s + 7),
        bit_of(q, s), bit_of(q, s + 1), bit_of(q, s + 2), bit_of(q, s + 3),
        bit_of(q, s + 4), bit_of(q, s + 5), bit_of(q, s + 6), bit_of(q, s + 7),
        c,
        j as u8,
    );
    if j == 0 {
        assert(packed_byte(p, k) == 0) by {
            assert(0u8 | 0u8 << 1u8 | 0u8 << 2u8 | 0u8 << 3u8 | 0u8 << 4u8 | 0u8 << 5u8 | 0u8 << 6u8
                | 0u8 << 7u8 == 0u8) by (bit_vector);
        }
        assert(0u8 | (c << 0u8) == c) by (bit_vector);
        assert(packed(q) =~= packed(p).push(c));
    } else {
        assert(packed(q) =~= packed(p).update(k, packed(p)[k] | c << (j as u8)));
    }
}


/// Bit `i` of the packing of `bools` is the bit that position `i` contributes.
proof fn lemma_packed_bit(bools: Seq<bool>, i: int)
    requires
        0 <= i < 8 * packed(bools).len(),
    ensures
        bit_at(packed(bools), i) == (bit_of(bools, i) == 1),
{
    let k = i / 8;
    let j = i % 8;
    let s = 8 * k;
    assert(i == s + j && 0 <= j < 8);
    assert(0 <= k < packed(bools).len());
    assert(packed(bools)[k] == packed_byte(bools, k));
    lemma_read_assembled(
        bit_of(bools, s), bit_of(bools, s + 1), bit_of(bools, s + 2), bit_of(bools, s + 3),
        bit_of(bools, s + 4), bit_of(bools, s + 5), bit_of(bools, s + 6), bit_of(bools, s + 7),
        j as u8,
    );
}

/// Packing then reading back gives the booleans in order: bit `i` of the packing of `bools`
/// is `bools[i]` for every position, the packing has `ceil(n / 8)` bytes, and the bits past
/// the last boolean are clear.
pub proof fn lemma_pack_round_trip(bools: Seq<bool>)
    ensures
        packed(bools).len() == (bools.len() + 7) / 8,
        forall|i: int| 0 <= i < bools.len() ==> bit_at(packed(bools), i) == bools[i],
        forall|i: int| bools.len() <= i < 8 * packed(bools).len() ==> !bit_at(packed(bools), i),
{
    assert forall|i: int| 0 <= i < 8 * packed(bools).len() implies #[trigger] bit_at(
        packed(bools),
        i,
    ) == (bit_of(bools, i) == 1) by {
        lemma_packed_bit(bools, i);
    }
    assert(8 * packed(bools).len() >= bools.len());
}

/// The position of `index` within its byte.
#[inline]
fn mod_8(index: usize) -> (r: usize)
    ensures
        r == index % 8,
{
    let r = index & 0x7;
    assert(index & 0x7 == index % 8) by (bit_vector);
    r
}

/// Sets bit `bit_index` of `num` when `b` holds; the other bits are kept.
fn push_bool(num: &mut u8, b: bool, bit_index: usize)
    requires
        bit_index < 8,
    ensures
        *final(num) == *old(num) | ((if b { 1u8 } else { 0u8 }) << (bit_index as u8)),
{
    let bit: u8 = if b { 1 } else { 0 };
    let bit_mask = bit << (bit_index as u8);
    *num = *num | bit_mask;
}

/// Packs `bools` into bytes, eight to a byte, the first of each eight in the lowest bit.
pub fn pack_bool(bools: &[bool]) -> (packed_bytes: Vec<u8>)
    ensures
        packed_bytes@ == packed(bools@),
{
    let mut packed_bytes: Vec<u8> = Vec::new();
    let mut index: usize = 0;
    while index < bools.len()
        invariant
            index <= bools@.len(),
            packed_bytes@ == packed(bools@.take(index as int)),
        decreases bools@.len() - index,
    {
        let b = bools[index];
        let bit_index = mod_8(index);
        proof {
            lemma_packed_push(bools@, index as int);
        }
        if bit_index == 0 {
            packed_bytes.push(if b { 1u8 } else { 0u8 });
        } else {
            let last = index / 8;
            let mut byte = packed_bytes[last];
            push_bool(&mut byte, b, bit_index);
            packed_bytes.set(last, byte);
        }
        index = index + 1;
    }
    assert(bools@.take(bools@.len() as int) =~= bools@);
    packed_bytes
}

/// Reads bit `index` of a packed table.
pub fn get_bit_at(bytes: &[u8], index: usize) -> (r: bool)
    requires
        index / 8 < bytes@.len(),
    ensures
        r == bit_at(bytes@, index as int),
{
    let byte_index = index >> 3;
    let bit_index = index & 0x7;
    assert(index >> 3 == index / 8) by (bit_vector);
    assert(index & 0x7 == index % 8) by (bit_vector);
    let byte = bytes[byte_index];
    let shift = bit_index as u8;
    let r = (byte >> shift) & 1 != 0;
    assert(((byte >> shift) & 1u8 != 0u8) == ((byte >> shift) & 1u8 == 1u8)) by (bit_vector);
    r
}

} // verus!
