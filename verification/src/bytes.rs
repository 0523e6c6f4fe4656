//! Integers as bytes, and copies of bytes.

use vstd::prelude::*;
use vstd::slice::slice_to_vec;

verus! {

/// The two bytes of `value`, most significant first.
pub open spec fn be16(value: u16) -> Seq<u8> {
    seq![(value / 256) as u8, (value % 256) as u8]
}

/// The number whose two bytes, most significant first, are `high` and `low`.
pub open spec fn be16_value(high: u8, low: u8) -> u16 {
    (high * 256 + low) as u16
}

/// The four bytes of `value`, most significant first.
pub open spec fn be32(value: u32) -> Seq<u8> {
    be16((value / 65536) as u16) + be16((value % 65536) as u16)
}

/// The number whose four bytes, most significant first, start `bytes`.
pub open spec fn be32_value(bytes: Seq<u8>) -> u32 {
    (be16_value(bytes[0], bytes[1]) * 65536 + be16_value(bytes[2], bytes[3])) as u32
}

/// The lowest `width` bytes of `value`, least significant first.
pub open spec fn little_endian(value: nat, width: nat) -> Seq<u8>
    decreases width,
{
    if width == 0 {
        Seq::empty()
    } else {
        seq![(value % 256) as u8] + little_endian(value / 256, (width - 1) as nat)
    }
}

/// How many numbers have a `width`-byte form.
pub open spec fn byte_range(width: nat) -> nat
    decreases width,
{
    if width == 0 {
        1
    } else {
        256 * byte_range((width - 1) as nat)
    }
}

/// A little-endian form has the length it was asked for.
pub proof fn lemma_little_endian_len(value: nat, width: nat)
    ensures
        little_endian(value, width).len() == width,
    decreases width,
{
    if width > 0 {
        lemma_little_endian_len(value / 256, (width - 1) as nat);
    }
}

/// Two numbers that fit and have the same little-endian form are equal.
pub proof fn lemma_little_endian_injective(a: nat, b: nat, width: nat)
    requires
        a < byte_range(width),
        b < byte_range(width),
        little_endian(a, width) == little_endian(b, width),
    ensures
        a == b,
    decreases width,
{
    if width > 0 {
        let rest = (width - 1) as nat;
        let (x, y) = (little_endian(a, width), little_endian(b, width));
        assert(x[0] == (a % 256) as u8 && y[0] == (b % 256) as u8);
        assert(x.skip(1) =~= little_endian(a / 256, rest));
        assert(y.skip(1) =~= little_endian(b / 256, rest));
        lemma_little_endian_injective(a / 256, b / 256, rest);
    }
}

/// A 16-bit number and its two bytes determine each other.
pub proof fn lemma_be16_round_trip(value: u16)
    ensures
        be16(value).len() == 2,
        be16_value(be16(value)[0], be16(value)[1]) == value,
{
}

/// A 32-bit number and its four bytes determine each other.
pub proof fn lemma_be32_round_trip(value: u32)
    ensures
        be32(value).len() == 4,
        be32_value(be32(value)) == value,
{
    lemma_be16_round_trip((value / 65536) as u16);
    lemma_be16_round_trip((value % 65536) as u16);
}

/// Appends the bytes of `other`.
pub fn extend(bytes: &mut Vec<u8>, other: &[u8])
    ensures
        final(bytes)@ == old(bytes)@ + other@,
{
    bytes.extend_from_slice(other);
    assert(bytes@ =~= old(bytes)@ + other@);
}

/// A copy of `bytes`.
pub fn copy(bytes: &[u8]) -> (r: Vec<u8>)
    ensures
        r@ == bytes@,
{
    slice_to_vec(bytes)
}

/// The bytes of each of the vectors in `list`.
pub open spec fn list_view(list: Seq<Vec<u8>>) -> Seq<Seq<u8>> {
    Seq::new(list.len(), |i: int| list[i]@)
}

/// A copy of a list of byte vectors.
pub fn copy_list(list: &Vec<Vec<u8>>) -> (r: Vec<Vec<u8>>)
    ensures
        list_view(r@) == list_view(list@),
        r@.len() == list@.len(),
        forall|i: int| 0 <= i < list@.len() ==> (#[trigger] r@[i])@ == list@[i]@,
{
    let mut r: Vec<Vec<u8>> = Vec::new();
    let mut i: usize = 0;
    while i < list.len()
        invariant
            i <= list@.len(),
            r@.len() == i,
            forall|j: int| 0 <= j < i ==> (#[trigger] r@[j])@ == list@[j]@,
        decreases list@.len() - i,
    {
        r.push(copy(list[i].as_slice()));
        i += 1;
    }
    assert(list_view(r@) =~= list_view(list@));
    r
}

/// Tells whether two sequences of bytes are the same.
pub fn equal(a: &[u8], b: &[u8]) -> (r: bool)
    ensures
        r == (a@ == b@),
{
    if a.len() != b.len() {
        return false;
    }
    let mut i: usize = 0;
    while i < a.len()
        invariant
            i <= a@.len(),
            a@.len() == b@.len(),
            a@.take(i as int) == b@.take(i as int),
        decreases a@.len() - i,
    {
        if a[i] != b[i] {
            return false;
        }
        assert(a@.take(i + 1) =~= a@.take(i as int).push(a@[i as int]));
        assert(b@.take(i + 1) =~= b@.take(i as int).push(b@[i as int]));
        i += 1;
    }
    assert(a@ =~= a@.take(i as int) && b@ =~= b@.take(i as int));
    true
}

/// Appends a 16-bit number, most significant byte first.
pub fn push_be16(bytes: &mut Vec<u8>, value: u16)
    ensures
        final(bytes)@ == old(bytes)@ + be16(value),
        final(bytes)@ == old(bytes)@ + seq![(value / 256) as u8, (value % 256) as u8],
{
    bytes.push((value / 256) as u8);
    bytes.push((value % 256) as u8);
    assert(bytes@ =~= old(bytes)@ + be16(value));
}

/// The 16-bit number that stands at `at`, most significant byte first.
pub fn read_be16(bytes: &[u8], at: usize) -> (value: u16)
    requires
        at + 2 <= bytes@.len(),
    ensures
        value == be16_value(bytes@[at as int], bytes@[at + 1]),
{
    bytes[at] as u16 * 256 + bytes[at + 1] as u16
}

/// Appends a 32-bit number, most significant byte first.
pub fn push_be32(bytes: &mut Vec<u8>, value: u32)
    ensures
        final(bytes)@ == old(bytes)@ + be32(value),
{
    push_be16(bytes, (value / 65536) as u16);
    push_be16(bytes, (value % 65536) as u16);
    assert(bytes@ =~= old(bytes)@ + be32(value));
}

/// The two bytes of a 16-bit number count its 256s and its ones.
pub proof fn law_be16_digits(value: u16)
    ensures
        be16(value).len() == 2,
        be16(value)[0] * 256 + be16(value)[1] == value,
{
}

/// Two bytes give the number in which the first counts 256s and the second ones.
pub proof fn law_be16_value_digits(high: u8, low: u8)
    ensures
        be16_value(high, low) == high * 256 + low,
        be16(be16_value(high, low)) == seq![high, low],
{
    assert(be16(be16_value(high, low)) =~= seq![high, low]);
}

/// The four bytes of a 32-bit number are its digits to the base 256, the most
/// significant first.
pub proof fn law_be32_digits(value: u32)
    ensures
        be32(value).len() == 4,
        be32(value)[0] * 16777216 + be32(value)[1] * 65536 + be32(value)[2] * 256 + be32(value)[3]
            == value,
{
}

/// The two bytes of a little-endian 16-bit number count its ones and its 256s.
pub proof fn law_little_endian_two(value: u16)
    ensures
        little_endian(value as nat, 2).len() == 2,
        little_endian(value as nat, 2)[0] + little_endian(value as nat, 2)[1] * 256 == value,
{
    reveal_with_fuel(little_endian, 3);
}

/// The bytes of a little-endian 64-bit number are its digits to the base 256,
/// the least significant first.
pub proof fn law_little_endian_eight(value: u64)
    ensures
        little_endian(value as nat, 8).len() == 8,
        ({
            let d = little_endian(value as nat, 8);
            d[0] + 0x100 * (d[1] + 0x100 * (d[2] + 0x100 * (d[3] + 0x100 * (d[4] + 0x100 * (d[5]
                + 0x100 * (d[6] + 0x100 * d[7])))))) == value
        }),
{
    lemma_little_endian_len(value as nat, 8);
    let v0 = value as nat;
    let (v1, v2, v3) = (v0 / 256, v0 / 256 / 256, v0 / 256 / 256 / 256);
    let (v4, v5) = (v3 / 256, v3 / 256 / 256);
    let (v6, v7) = (v5 / 256, v5 / 256 / 256);
    assert(v7 < 256);
    let d = little_endian(v0, 8);
    assert(d =~= seq![
        (v0 % 256) as u8,
        (v1 % 256) as u8,
        (v2 % 256) as u8,
        (v3 % 256) as u8,
        (v4 % 256) as u8,
        (v5 % 256) as u8,
        (v6 % 256) as u8,
        (v7 % 256) as u8,
    ]) by {
        reveal_with_fuel(little_endian, 9);
    }
}

/// A list of byte vectors is known by the bytes of each of them.
pub proof fn law_list_view_items(list: Seq<Vec<u8>>, i: int)
    ensures
        list_view(list).len() == list.len(),
        0 <= i < list.len() ==> list_view(list)[i] == list[i]@,
{
}

} // verus!
