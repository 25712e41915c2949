//! Arithmetic on the octets of network addresses: a key added to an IPv4
//! address octet by octet, and a key mixed into an IPv6 address by exclusive
//! or.

use vstd::prelude::*;

verus! {

/// Sum of two octets, wrapping at 256.
pub open spec fn octet_sum(a: u8, b: u8) -> u8 {
    ((a + b) % 256) as u8
}

/// Difference of two octets, wrapping at 0.
pub open spec fn octet_difference(a: u8, b: u8) -> u8 {
    ((a - b) % 256) as u8
}

/// The octets of `from`, each with the octet of `key` in its place added.
pub open spec fn octets_added(from: Seq<u8>, key: Seq<u8>) -> Seq<u8> {
    Seq::new(from.len(), |i: int| octet_sum(from[i], key[i]))
}

/// The octets of `to`, each with the octet of `from` in its place taken away.
pub open spec fn octets_subtracted(to: Seq<u8>, from: Seq<u8>) -> Seq<u8> {
    Seq::new(to.len(), |i: int| octet_difference(to[i], from[i]))
}

/// The octets of `a`, each combined by exclusive or with the octet of `b` in
/// its place.
pub open spec fn octets_xored(a: Seq<u8>, b: Seq<u8>) -> Seq<u8> {
    Seq::new(a.len(), |i: int| a[i] ^ b[i])
}

/// The IPv4 destination reached from `from` with `key`.
pub fn task_1(from: [u8; 4], key: [u8; 4]) -> (dest: [u8; 4])
    ensures
        dest@ == octets_added(from@, key@),
{
    let mut dest = [0u8;4];
    let mut i: usize = 0;
    while i < 4
        invariant
            i <= 4,
            forall|j: int| 0 <= j < i ==> dest[j] == octet_sum(from[j], key[j]),
        decreases 4 - i,
    {
        dest[i] = from[i].wrapping_add(key[i]);
        i += 1;
    }
    assert(dest@ =~= octets_added(from@, key@));
    dest
}

/// The IPv4 key that leads from `from` to `to`.
pub fn task_2(from: [u8; 4], to: [u8; 4]) -> (key: [u8; 4])
    ensures
        key@ == octets_subtracted(to@, from@),
{
    let mut key = [0u8;4];
    let mut i: usize = 0;
    while i < 4
        invariant
            i <= 4,
            forall|j: int| 0 <= j < i ==> key[j] == octet_difference(to[j], from[j]),
        decreases 4 - i,
    {
        key[i] = to[i].wrapping_sub(from[i]);
        i += 1;
    }
    assert(key@ =~= octets_subtracted(to@, from@));
    key
}

/// The IPv6 destination reached from `from` with `key`.
pub fn task_3_dest(from: [u8; 16], key: [u8; 16]) -> (dest: [u8; 16])
    ensures
        dest@ == octets_xored(from@, key@),
{
    let mut dest = [0u8;16];
    let mut i: usize = 0;
    while i < 16
        invariant
            i <= 16,
            forall|j: int| 0 <= j < i ==> dest[j] == from[j] ^ key[j],
        decreases 16 - i,
    {
        dest[i] = from[i] ^ key[i];
        i += 1;
    }
    assert(dest@ =~= octets_xored(from@, key@));
    dest
}

/// The IPv6 key that leads from `from` to `to`.
pub fn task_3_key(from: [u8; 16], to: [u8; 16]) -> (key: [u8; 16])
    ensures
        key@ == octets_xored(from@, to@),
{
    let mut key = [0u8;16];
    let mut i: usize = 0;
    while i < 16
        invariant
            i <= 16,
            forall|j: int| 0 <= j < i ==> key[j] == from[j] ^ to[j],
        decreases 16 - i,
    {
        key[i] = from[i] ^ to[i];
        i += 1;
    }
    assert(key@ =~= octets_xored(from@, to@));
    key
}

/// The key found between an address and the destination that a key leads to
/// is that key again, and a found key leads back to the destination.
pub proof fn lemma_key_round_trip(from: Seq<u8>, other: Seq<u8>)
    requires
        from.len() == other.len(),
    ensures
        octets_subtracted(octets_added(from, other), from) == other,
        octets_added(from, octets_subtracted(other, from)) == other,
{
    assert(octets_subtracted(octets_added(from, other), from) =~= other);
    assert(octets_added(from, octets_subtracted(other, from)) =~= other);
}

/// Mixing the same octets in twice gives the first octets back, so the key
/// between an IPv6 address and its destination is the key that led there.
pub proof fn lemma_xor_round_trip(from: Seq<u8>, other: Seq<u8>)
    requires
        from.len() == other.len(),
    ensures
        octets_xored(from, octets_xored(from, other)) == other,
{
    assert forall|i: int| 0 <= i < from.len() implies from[i] ^ (from[i] ^ other[i])
        == other[i] by {
        let a = from[i];
        let b = other[i];
        assert(a ^ (a ^ b) == b) by (bit_vector);
    }
    assert(octets_xored(from, octets_xored(from, other)) =~= other);
}

} // verus!
