use vstd::prelude::*;

verus! {

/// The order of a non-NaN `f32` given by its bit pattern: the sign bit, then the
/// magnitude. IEEE 754 lays out the exponent above the mantissa, so two floats of one
/// sign compare as their magnitude bits do.
pub open spec fn signed_magnitude(bits: u32) -> int {
    if bits < 0x8000_0000 {
        bits as int
    } else {
        -((bits - 0x8000_0000) as int)
    }
}

/// The unsigned key that orders bit patterns by their signed magnitude.
pub open spec fn key_of(bits: u32) -> u32 {
    if bits < 0x8000_0000 {
        (bits + 0x8000_0000) as u32
    } else {
        (0xffff_ffff - bits) as u32
    }
}

/// The key under which a distance, given as its `f32` bit pattern, takes part in
/// nearest-hit selection: keys compare as the distances do.
pub fn distance_key(bits: u32) -> (k: u32)
    ensures
        k == key_of(bits),
{
    if bits < 0x8000_0000 {
        bits + 0x8000_0000
    } else {
        0xffff_ffff - bits
    }
}

/// Keys preserve the order of signed magnitudes: a strictly smaller distance gets a
/// strictly smaller key, and a smaller key never stands for a larger distance.
pub proof fn lemma_key_monotone(a: u32, b: u32)
    ensures
        signed_magnitude(a) < signed_magnitude(b) ==> key_of(a) < key_of(b),
        key_of(a) < key_of(b) ==> signed_magnitude(a) <= signed_magnitude(b),
        key_of(a) == key_of(b) ==> a == b,
{
}

/// Index `i` holds the nearest hit of `s`: a hit whose key no other hit undercuts, and
/// the first such.
pub open spec fn is_nearest(s: Seq<Option<u32>>, i: int) -> bool {
    &&& 0 <= i < s.len()
    &&& s[i] is Some
    &&& forall|j: int| 0 <= j < s.len() && s[j] is Some ==> s[i]->0 <= s[j]->0
    &&& forall|j: int| 0 <= j < i && s[j] is Some ==> s[i]->0 < s[j]->0
}

/// Some entry of `s` is a hit.
pub open spec fn has_hit(s: Seq<Option<u32>>) -> bool {
    exists|j: int| 0 <= j < s.len() && s[j] is Some
}

/// Picks, among the per-object hit keys `candidates` (`None` for a miss), the
/// nearest hit; on a tie the earliest object wins.
pub fn nearest_hit(candidates: &Vec<Option<u32>>) -> (r: Option<usize>)
    ensures
        r is None <==> !has_hit(candidates@),
        r matches Some(i) ==> is_nearest(candidates@, i as int),
{
    let mut best: Option<usize> = None;
    let mut best_key: u32 = 0;
    let mut i: usize = 0;
    while i < candidates.len()
        invariant
            i <= candidates@.len(),
            best is None ==> forall|j: int| 0 <= j < i ==> candidates@[j] is None,
            best matches Some(b) ==> {
                &&& b < i
                &&& candidates@[b as int] == Some(best_key)
                &&& forall|j: int| 0 <= j < i && candidates@[j] is Some ==> best_key <= candidates@[j]->0
                &&& forall|j: int| 0 <= j < b && candidates@[j] is Some ==> best_key < candidates@[j]->0
            },
        decreases candidates@.len() - i,
    {
        if let Some(k) = candidates[i] {
            if best.is_none() || k < best_key {
                best = Some(i);
                best_key = k;
            }
        }
        i = i + 1;
    }
    best
}

/// The keys of per-object distances given as `f32` bit patterns.
pub open spec fn keys_of(bits: Seq<Option<u32>>) -> Seq<Option<u32>> {
    bits.map_values(|o: Option<u32>| match o {
        Some(b) => Some(key_of(b)),
        None => None,
    })
}

/// Selecting by keys selects by distance: the nearest hit among the keys of the
/// distances `bits` has the globally smallest distance of all hits.
pub proof fn lemma_nearest_is_closest(bits: Seq<Option<u32>>, i: int)
    requires
        is_nearest(keys_of(bits), i),
    ensures
        bits[i] is Some,
        forall|j: int| 0 <= j < bits.len() && bits[j] is Some
            ==> signed_magnitude(bits[i]->0) <= signed_magnitude(#[trigger] bits[j]->0),
{
    let keys = keys_of(bits);
    assert(keys[i] is Some);
    assert forall|j: int| 0 <= j < bits.len() && bits[j] is Some
        implies signed_magnitude(bits[i]->0) <= signed_magnitude(#[trigger] bits[j]->0) by {
        assert(keys[j] is Some);
        assert(keys[i]->0 <= keys[j]->0);
        lemma_key_monotone(bits[j]->0, bits[i]->0);
    }
}

/// The smaller of two optional hit keys, a miss counting as no hit.
pub open spec fn min_hit(a: Option<u32>, b: Option<u32>) -> Option<u32> {
    match (a, b) {
        (Some(x), Some(y)) => Some(if x <= y { x } else { y }),
        (Some(x), None) => Some(x),
        (None, Some(y)) => Some(y),
        (None, None) => None,
    }
}

/// Of two objects along one ray, the nearest hit is the minimum of the two objects'
/// own hits: none when both miss, else the smaller distance.
pub proof fn lemma_nearest_of_two(a: Option<u32>, b: Option<u32>)
    ensures
        has_hit(seq![a, b]) <==> min_hit(a, b) is Some,
        forall|i: int| is_nearest(seq![a, b], i) ==> seq![a, b][i] == min_hit(a, b),
{
    let s = seq![a, b];
    if a is Some {
        assert(s[0] is Some);
    }
    if b is Some {
        assert(s[1] is Some);
    }
    assert forall|i: int| is_nearest(s, i) implies s[i] == min_hit(a, b) by {
        if a is Some {
            assert(s[i]->0 <= s[0]->0);
        }
        if b is Some {
            assert(s[i]->0 <= s[1]->0);
        }
    }
}

} // verus!
