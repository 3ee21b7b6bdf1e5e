//! A deterministic content hash over characters (64-bit FNV-1a), used for
//! the deduplication table and the cache key.

use vstd::prelude::*;

verus! {

/// FNV-1a offset basis.
pub const FNV_OFFSET: u64 = 0xcbf29ce484222325;

/// FNV-1a prime.
pub const FNV_PRIME: u64 = 0x100000001b3;

/// 64-bit product truncated to 64 bits.
pub open spec fn wrap_mul64(a: u64, b: u64) -> u64 {
    ((a as nat * b as nat) % 0x10000000000000000nat) as u64
}

/// One FNV-1a step: fold one character into the running hash.
pub open spec fn fnv_step(h: u64, c: char) -> u64 {
    wrap_mul64(h ^ (c as u64), FNV_PRIME)
}

pub open spec fn fnv_from(h: u64, s: Seq<char>) -> u64
    decreases s.len(),
{
    if s.len() == 0 {
        h
    } else {
        fnv_from(fnv_step(h, s[0]), s.drop_first())
    }
}

/// The FNV-1a hash of a character sequence.
pub open spec fn spec_hash_chars(s: Seq<char>) -> u64 {
    fnv_from(FNV_OFFSET, s)
}

proof fn lemma_fnv_from_push(h: u64, s: Seq<char>, c: char)
    ensures
        fnv_from(h, s.push(c)) == fnv_step(fnv_from(h, s), c),
    decreases s.len(),
{
    assert(s.push(c)[0] == if s.len() == 0 { c } else { s[0] });
    if s.len() == 0 {
        assert(s.push(c).drop_first() =~= Seq::<char>::empty());
        assert(fnv_from(h, s.push(c)) == fnv_step(h, c)) by {
            reveal_with_fuel(fnv_from, 2);
        }
    } else {
        assert(s.push(c).drop_first() =~= s.drop_first().push(c));
        lemma_fnv_from_push(fnv_step(h, s[0]), s.drop_first(), c);
    }
}

/// The deterministic content hash of a piece of text: the same characters
/// always give the same value, in every process.
pub fn hash_chars(v: &Vec<char>) -> (h: u64)
    ensures
        h == spec_hash_chars(v@),
{
    let mut h: u64 = FNV_OFFSET;
    let mut i: usize = 0;
    while i < v.len()
        invariant
            i <= v@.len(),
            h == fnv_from(FNV_OFFSET, v@.subrange(0, i as int)),
        decreases v@.len() - i,
    {
        let c: char = v[i];
        let folded: u64 = (h ^ (c as u64)).wrapping_mul(FNV_PRIME);
        proof {
            lemma_fnv_from_push(FNV_OFFSET, v@.subrange(0, i as int), c);
            assert(v@.subrange(0, i as int).push(c) =~= v@.subrange(0, i + 1 as int));
        }
        h = folded;
        i = i + 1;
    }
    proof {
        assert(v@.subrange(0, v@.len() as int) =~= v@);
    }
    h
}

} // verus!
