//! The verifier-index digest: a fixed-size hash folding a byte stream into
//! four 64-bit words with a fixed shift-and-xor sponge. It binds a proving
//! index to the parameters a verifier must agree on; computing it is a pure
//! function of the bytes, so recomputing it always yields the same value.

use vstd::prelude::*;

verus! {

/// Initial sponge state.
pub const DIGEST_SEED: u64 = 0x6a09_e667_f3bc_c908;

/// Word-separation constants for the four output limbs.
pub const DIGEST_SEP_1: u64 = 0xbb67_ae85_84ca_a73b;

pub const DIGEST_SEP_2: u64 = 0x3c6e_f372_fe94_f82b;

pub const DIGEST_SEP_3: u64 = 0xa54f_f53a_5f1d_36f1;

/// A fixed-size digest of index contents.
#[derive(Clone, Copy, PartialEq, Eq, Structural, Debug)]
pub struct Digest {
    pub h0: u64,
    pub h1: u64,
    pub h2: u64,
    pub h3: u64,
}

/// One absorption step of the sponge.
pub open spec fn mix(h: u64, b: u8) -> u64 {
    let x0 = h ^ (b as u64);
    let x1 = x0 ^ (x0 << 13);
    let x2 = x1 ^ (x1 >> 7);
    x2 ^ (x2 << 17)
}

/// Folds a byte sequence into the sponge state, front to back.
pub open spec fn fold_bytes(h: u64, s: Seq<u8>) -> u64
    decreases s.len(),
{
    if s.len() == 0 {
        h
    } else {
        fold_bytes(mix(h, s[0]), s.skip(1))
    }
}

/// Folding one more byte at the back absorbs it into the folded state.
pub proof fn lemma_fold_bytes_push(h: u64, s: Seq<u8>, b: u8)
    ensures
        fold_bytes(h, s.push(b)) == mix(fold_bytes(h, s), b),
    decreases s.len(),
{
    if s.len() == 0 {
        assert(s.push(b)[0] == b);
        assert(s.push(b).skip(1) =~= Seq::<u8>::empty());
        assert(fold_bytes(h, s.push(b)) == fold_bytes(mix(h, b), Seq::<u8>::empty()));
        assert(fold_bytes(mix(h, b), Seq::<u8>::empty()) == mix(h, b));
        assert(fold_bytes(h, s) == h);
    } else {
        assert(s.push(b)[0] == s[0]);
        assert(s.push(b).skip(1) =~= s.skip(1).push(b));
        assert(fold_bytes(h, s.push(b)) == fold_bytes(mix(h, s[0]), s.skip(1).push(b)));
        lemma_fold_bytes_push(mix(h, s[0]), s.skip(1), b);
        assert(fold_bytes(h, s) == fold_bytes(mix(h, s[0]), s.skip(1)));
    }
}

/// The digest of a byte sequence.
pub open spec fn digest_spec(s: Seq<u8>) -> Digest {
    let h = fold_bytes(DIGEST_SEED, s);
    Digest { h0: h, h1: h ^ DIGEST_SEP_1, h2: h ^ DIGEST_SEP_2, h3: h ^ DIGEST_SEP_3 }
}

/// One absorption step of the sponge.
fn mix_step(h: u64, b: u8) -> (r: u64)
    ensures
        r == mix(h, b),
{
    let x0 = h ^ (b as u64);
    let x1 = x0 ^ (x0 << 13u64);
    let x2 = x1 ^ (x1 >> 7u64);
    x2 ^ (x2 << 17u64)
}

/// Computes the digest of a byte stream.
pub fn digest_bytes(bytes: &Vec<u8>) -> (r: Digest)
    ensures
        r == digest_spec(bytes@),
{
    let mut h: u64 = DIGEST_SEED;
    let mut i: usize = 0;
    while i < bytes.len()
        invariant
            i <= bytes.len(),
            h == fold_bytes(DIGEST_SEED, bytes@.take(i as int)),
        decreases bytes.len() - i,
    {
        proof {
            assert(bytes@.take(i + 1) =~= bytes@.take(i as int).push(bytes@[i as int]));
            lemma_fold_bytes_push(DIGEST_SEED, bytes@.take(i as int), bytes@[i as int]);
        }
        h = mix_step(h, bytes[i]);
        i = i + 1;
    }
    proof {
        assert(bytes@.take(bytes@.len() as int) =~= bytes@);
    }
    Digest { h0: h, h1: h ^ DIGEST_SEP_1, h2: h ^ DIGEST_SEP_2, h3: h ^ DIGEST_SEP_3 }
}

} // verus!
